use crate::codec::{agrees, number, number_of};
use crate::error::{DecodeError, ErrorKind, ErrorModel};
use crate::number::Float64;
use crate::value::{Value, ValueModel};
use std::convert::From;
use vstd::prelude::*;
use vstd::std_specs::convert::FromSpecImpl;

verus! {

/// The value of a layout property: a text, a number, or a pair of a verb
/// and a property name such as ("get", "icon"). The wire
/// carries no tag: the shape of the value tells the three apart.
#[derive(Debug, PartialEq, Eq)]
pub enum LayoutProperty {
    String(String),
    Number(Float64),
    FeatureProperty((String, String)),
}

/// The mathematical reading of a [`LayoutProperty`].
pub enum PropertyModel {
    String(Seq<char>),
    Number(Float64),
    FeatureProperty(Seq<char>, Seq<char>),
}

impl View for LayoutProperty {
    type V = PropertyModel;

    open spec fn view(&self) -> PropertyModel {
        match self {
            LayoutProperty::String(text) => PropertyModel::String(text@),
            LayoutProperty::Number(x) => PropertyModel::Number(*x),
            LayoutProperty::FeatureProperty(pair) => PropertyModel::FeatureProperty(pair.0@, pair.1@),
        }
    }
}

impl Clone for LayoutProperty {
    fn clone(&self) -> (copy: LayoutProperty)
        ensures
            copy@ == self@,
    {
        match self {
            LayoutProperty::String(text) => LayoutProperty::String(text.clone()),
            LayoutProperty::Number(x) => LayoutProperty::Number(*x),
            LayoutProperty::FeatureProperty(pair) => LayoutProperty::FeatureProperty(
                (pair.0.clone(), pair.1.clone()),
            ),
        }
    }
}

impl From<&str> for LayoutProperty {
    fn from(value: &str) -> (property: LayoutProperty)
        ensures
            property@ == PropertyModel::String(value@),
    {
        LayoutProperty::String(value.to_string())
    }
}

impl FromSpecImpl<&str> for LayoutProperty {
    open spec fn obeys_from_spec() -> bool {
        false
    }

    open spec fn from_spec(value: &str) -> LayoutProperty {
        arbitrary()
    }
}

impl From<String> for LayoutProperty {
    fn from(value: String) -> (property: LayoutProperty)
    {
        LayoutProperty::String(value)
    }
}

impl FromSpecImpl<String> for LayoutProperty {
    open spec fn obeys_from_spec() -> bool {
        true
    }

    open spec fn from_spec(value: String) -> LayoutProperty {
        LayoutProperty::String(value)
    }
}

impl From<Float64> for LayoutProperty {
    fn from(value: Float64) -> (property: LayoutProperty)
    {
        LayoutProperty::Number(value)
    }
}

impl FromSpecImpl<Float64> for LayoutProperty {
    open spec fn obeys_from_spec() -> bool {
        true
    }

    open spec fn from_spec(value: Float64) -> LayoutProperty {
        LayoutProperty::Number(value)
    }
}

impl From<(String, String)> for LayoutProperty {
    fn from(pair: (String, String)) -> (property: LayoutProperty)
    {
        let (verb, name) = pair;
        LayoutProperty::FeatureProperty((verb, name))
    }
}

impl FromSpecImpl<(String, String)> for LayoutProperty {
    open spec fn obeys_from_spec() -> bool {
        true
    }

    open spec fn from_spec(pair: (String, String)) -> LayoutProperty {
        LayoutProperty::FeatureProperty(pair)
    }
}

impl From<(&str, &str)> for LayoutProperty {
    fn from(pair: (&str, &str)) -> (property: LayoutProperty)
        ensures
            property@ == PropertyModel::FeatureProperty(pair.0@, pair.1@),
    {
        let (verb, name) = pair;
        LayoutProperty::FeatureProperty((verb.to_string(), name.to_string()))
    }
}

impl FromSpecImpl<(&str, &str)> for LayoutProperty {
    open spec fn obeys_from_spec() -> bool {
        false
    }

    open spec fn from_spec(pair: (&str, &str)) -> LayoutProperty {
        arbitrary()
    }
}

/// The one shape that stands for a property: a string for a text, a float
/// for a number, an array of two strings for a pair.
pub open spec fn encode_property(property: PropertyModel) -> ValueModel {
    match property {
        PropertyModel::String(text) => ValueModel::String(text),
        PropertyModel::Number(x) => ValueModel::Float(x),
        PropertyModel::FeatureProperty(verb, name) => ValueModel::Array(
            seq![ValueModel::String(verb), ValueModel::String(name)],
        ),
    }
}

/// The two texts of an array of exactly two strings.
pub open spec fn pair_of(value: ValueModel) -> Option<(Seq<char>, Seq<char>)> {
    match value {
        ValueModel::Array(items) => {
            if items.len() == 2 && items[0] is String && items[1] is String {
                Some((items[0]->String_0, items[1]->String_0))
            } else {
                None
            }
        },
        _ => None,
    }
}

/// The property that a value stands for, by its shape: an array of two
/// strings is a pair, else a numeric value is a number, else a string is a
/// text; any other value has no accepted shape.
pub open spec fn decode_property(value: ValueModel) -> Result<PropertyModel, ErrorModel> {
    if let Some(pair) = pair_of(value) {
        Ok(PropertyModel::FeatureProperty(pair.0, pair.1))
    } else if number_of(value) is Some {
        Ok(PropertyModel::Number(number_of(value)->0))
    } else if value is String {
        Ok(PropertyModel::String(value->String_0))
    } else {
        Err(ErrorModel::at_root(ErrorKind::UnrecognizedShape))
    }
}

impl LayoutProperty {
    /// Encodes the property in the shape of its variant.
    pub fn encode(&self) -> (value: Value)
        ensures
            value@ == encode_property(self@),
    {
        match self {
            LayoutProperty::String(text) => Value::String(text.clone()),
            LayoutProperty::Number(x) => Value::Float(*x),
            LayoutProperty::FeatureProperty(pair) => {
                let mut items: Vec<Value> = Vec::new();
                items.push(Value::String(pair.0.clone()));
                items.push(Value::String(pair.1.clone()));
                let value = Value::array(items);
                assert(value@->Array_0 =~= encode_property(self@)->Array_0);
                value
            },
        }
    }

    /// Decodes a property from a value, telling the variant by the shape.
    pub fn decode(value: &Value) -> (result: Result<LayoutProperty, DecodeError>)
        ensures
            agrees(result, decode_property(value@)),
    {
        if let Some(items) = value.items() {
            if items.len() == 2 {
                if let Some(verb) = items[0].text() {
                    if let Some(name) = items[1].text() {
                        return Ok(LayoutProperty::FeatureProperty((verb.clone(), name.clone())));
                    }
                }
            }
            return Err(DecodeError::at_root(ErrorKind::UnrecognizedShape));
        }
        if let Some(x) = number(value) {
            return Ok(LayoutProperty::Number(x));
        }
        if let Some(text) = value.text() {
            return Ok(LayoutProperty::String(text.clone()));
        }
        Err(DecodeError::at_root(ErrorKind::UnrecognizedShape))
    }
}

} // verus!

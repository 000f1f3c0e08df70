use crate::codec::{
    agrees, entry_fault, failure_of, first_some, lemma_first_some, opt_view, optional,
    optional_entry, present, settle, slot_fault, slot_tracks, slot_view, unless_null,
};
use crate::error::{DecodeError, ErrorKind, ErrorModel};
use crate::naming::{LayoutField, lemma_layout_keys};
use crate::property::{decode_property, encode_property, LayoutProperty, PropertyModel};
use crate::value::{entries_view, lemma_value_of, Value, value_of, ValueModel};
use vstd::prelude::*;

verus! {

/// The layout properties of a layer: each may be absent, and each has a
/// value of any of the three shapes.
#[derive(Debug, PartialEq, Eq)]
pub struct Layout {
    pub line_join: Option<LayoutProperty>,
    pub line_cap: Option<LayoutProperty>,
    pub icon_image: Option<LayoutProperty>,
    pub icon_size: Option<LayoutProperty>,
}

/// The mathematical reading of a [`Layout`].
pub struct LayoutModel {
    pub line_join: Option<PropertyModel>,
    pub line_cap: Option<PropertyModel>,
    pub icon_image: Option<PropertyModel>,
    pub icon_size: Option<PropertyModel>,
}

impl View for Layout {
    type V = LayoutModel;

    open spec fn view(&self) -> LayoutModel {
        LayoutModel {
            line_join: opt_view(self.line_join),
            line_cap: opt_view(self.line_cap),
            icon_image: opt_view(self.icon_image),
            icon_size: opt_view(self.icon_size),
        }
    }
}

fn clone_property(property: &Option<LayoutProperty>) -> (copy: Option<LayoutProperty>)
    ensures
        opt_view(copy) == opt_view(*property),
{
    match property {
        Some(held) => Some(held.clone()),
        None => None,
    }
}

impl Clone for Layout {
    fn clone(&self) -> (copy: Layout)
        ensures
            copy@ == self@,
    {
        Layout {
            line_join: clone_property(&self.line_join),
            line_cap: clone_property(&self.line_cap),
            icon_image: clone_property(&self.icon_image),
            icon_size: clone_property(&self.icon_size),
        }
    }
}

/// The encoded value of a property that may be absent.
pub open spec fn encode_optional_property(property: Option<PropertyModel>) -> Option<ValueModel> {
    match property {
        Some(held) => Some(encode_property(held)),
        None => None,
    }
}

/// The property that a layout record holds for a field.
pub open spec fn layout_property(layout: LayoutModel, field: LayoutField) -> Option<PropertyModel> {
    match field {
        LayoutField::LineJoin => layout.line_join,
        LayoutField::LineCap => layout.line_cap,
        LayoutField::IconImage => layout.icon_image,
        LayoutField::IconSize => layout.icon_size,
    }
}

/// The entry that a layout record writes for a field, if it writes one.
pub open spec fn layout_entry(layout: LayoutModel, field: LayoutField) -> Seq<(Seq<char>, ValueModel)> {
    optional_entry(field.key_spec(), encode_optional_property(layout_property(layout, field)))
}

/// The object that stands for a layout record: an entry for each property
/// that is present, in the order of their declaration, and no other.
pub open spec fn encode_layout(layout: LayoutModel) -> ValueModel {
    ValueModel::Object(
        layout_entry(layout, LayoutField::LineJoin) + layout_entry(layout, LayoutField::LineCap)
            + layout_entry(layout, LayoutField::IconImage) + layout_entry(
            layout,
            LayoutField::IconSize,
        ),
    )
}

/// Whether a key names a field of a layout record.
pub open spec fn is_layout_key(key: Seq<char>) -> bool {
    exists|field: LayoutField| #[trigger] field.key_spec() == key
}

/// The failure of reading a value as an optional property.
pub open spec fn property_failure(item: ValueModel) -> Option<ErrorModel> {
    unless_null(item, failure_of(decode_property(item)))
}

/// What entry `i` does wrong as an entry of a layout record. An entry whose
/// key names no field does nothing wrong: it is passed over.
pub open spec fn layout_fault(entries: Seq<(Seq<char>, ValueModel)>, i: int) -> Option<ErrorModel> {
    if is_layout_key(entries[i].0) {
        entry_fault(entries, i, property_failure(entries[i].1))
    } else {
        None
    }
}

/// The faults of the entries, in their order.
pub open spec fn layout_faults(entries: Seq<(Seq<char>, ValueModel)>) -> Seq<Option<ErrorModel>> {
    Seq::new(entries.len(), |i: int| layout_fault(entries, i))
}

/// The property that the entries give the field `key`: none where no entry
/// has the key, or where its value is `null`.
pub open spec fn property_at(entries: Seq<(Seq<char>, ValueModel)>, key: Seq<char>) -> Option<PropertyModel> {
    if present(entries, key) {
        Some(decode_property(value_of(entries, key))->Ok_0)
    } else {
        None
    }
}

/// The layout record that a value stands for. The value must be an
/// object. The first entry at fault decides, if there is one; else each
/// property has the value of its one entry, or is absent.
pub open spec fn decode_layout(value: ValueModel) -> Result<LayoutModel, ErrorModel> {
    match value {
        ValueModel::Object(entries) => {
            match first_some(layout_faults(entries)) {
                Some(fault) => Err(fault),
                None => Ok(
                    LayoutModel {
                        line_join: property_at(entries, LayoutField::LineJoin.key_spec()),
                        line_cap: property_at(entries, LayoutField::LineCap.key_spec()),
                        icon_image: property_at(entries, LayoutField::IconImage.key_spec()),
                        icon_size: property_at(entries, LayoutField::IconSize.key_spec()),
                    },
                ),
            }
        },
        _ => Err(ErrorModel::at_root(ErrorKind::TypeMismatch)),
    }
}

/// Gives the field of `slot` the value of an entry with its key.
fn fill(slot: &mut Option<Option<LayoutProperty>>, key: &String, item: &Value) -> (fault: Option<
    DecodeError,
>)
    ensures
        opt_view(fault) == slot_fault(*old(slot) is Some, key@, property_failure(item@)),
        fault is None ==> slot_view(*final(slot)) == Some(optional(item@, decode_property(item@))),
        fault is Some ==> *final(slot) == *old(slot),
{
    if slot.is_some() {
        return Some(DecodeError::at(ErrorKind::MalformedInput, key.clone()));
    }
    match item {
        Value::Null => {
            *slot = Some(None);
            None
        },
        _ => match LayoutProperty::decode(item) {
            Ok(property) => {
                *slot = Some(Some(property));
                None
            },
            Err(error) => Some(error.under(key.clone())),
        },
    }
}

fn push_property(entries: &mut Vec<(String, Value)>, field: LayoutField, property: &Option<LayoutProperty>)
    ensures
        entries_view(final(entries)@) == entries_view(old(entries)@) + optional_entry(
            field.key_spec(),
            encode_optional_property(opt_view(*property)),
        ),
{
    let ghost before = entries_view(entries@);
    if let Some(held) = property {
        entries.push((field.key(), held.encode()));
        assert(entries_view(entries@) =~= before + seq![(field.key_spec(), encode_property(held@))]);
    } else {
        assert(entries_view(entries@) =~= before + Seq::empty());
    }
}

impl Layout {
    /// Encodes the record as an object with the properties that are present.
    pub fn encode(&self) -> (value: Value)
        ensures
            value@ == encode_layout(self@),
    {
        let mut entries: Vec<(String, Value)> = Vec::new();
        assert(entries_view(entries@) =~= Seq::empty());
        push_property(&mut entries, LayoutField::LineJoin, &self.line_join);
        push_property(&mut entries, LayoutField::LineCap, &self.line_cap);
        push_property(&mut entries, LayoutField::IconImage, &self.icon_image);
        push_property(&mut entries, LayoutField::IconSize, &self.icon_size);
        let value = Value::object(entries);
        assert(value@->Object_0 =~= encode_layout(self@)->Object_0);
        value
    }

    /// Decodes a record from an object.
    #[verifier::rlimit(50)]
    pub fn decode(value: &Value) -> (result: Result<Layout, DecodeError>)
        ensures
            agrees(result, decode_layout(value@)),
    {
        let entries = match value.entries() {
            Some(list) => list,
            None => {
                return Err(DecodeError::at_root(ErrorKind::TypeMismatch));
            },
        };
        let join_key = LayoutField::LineJoin.key();
        let cap_key = LayoutField::LineCap.key();
        let image_key = LayoutField::IconImage.key();
        let size_key = LayoutField::IconSize.key();
        proof {
            lemma_layout_keys();
        }
        let ghost listed = entries_view(entries@);
        let mut line_join: Option<Option<LayoutProperty>> = None;
        let mut line_cap: Option<Option<LayoutProperty>> = None;
        let mut icon_image: Option<Option<LayoutProperty>> = None;
        let mut icon_size: Option<Option<LayoutProperty>> = None;
        let ghost mut join_at: int = 0;
        let ghost mut cap_at: int = 0;
        let ghost mut image_at: int = 0;
        let ghost mut size_at: int = 0;
        let mut i: usize = 0;
        while i < entries.len()
            invariant
                i <= entries.len(),
                listed == entries_view(entries@),
                value@ == ValueModel::Object(listed),
                join_key@ == LayoutField::LineJoin.key_spec(),
                cap_key@ == LayoutField::LineCap.key_spec(),
                image_key@ == LayoutField::IconImage.key_spec(),
                size_key@ == LayoutField::IconSize.key_spec(),
                forall|a: LayoutField, b: LayoutField| a != b ==> a.key_spec() != b.key_spec(),
                forall|j: int| 0 <= j < i ==> (#[trigger] layout_faults(listed)[j]) is None,
                slot_tracks(listed, join_key@, i as int, join_at, slot_view(line_join), optional(listed[join_at].1, decode_property(listed[join_at].1))),
                slot_tracks(listed, cap_key@, i as int, cap_at, slot_view(line_cap), optional(listed[cap_at].1, decode_property(listed[cap_at].1))),
                slot_tracks(listed, image_key@, i as int, image_at, slot_view(icon_image), optional(listed[image_at].1, decode_property(listed[image_at].1))),
                slot_tracks(listed, size_key@, i as int, size_at, slot_view(icon_size), optional(listed[size_at].1, decode_property(listed[size_at].1))),
            decreases entries.len() - i,
        {
            let key = &entries[i].0;
            let item = &entries[i].1;
            assert(listed[i as int] == (key@, item@));
            let fault = if *key == join_key {
                assert(LayoutField::LineJoin.key_spec() == key@);
                proof {
                    if line_join is Some {
                        assert(listed[join_at].0 == key@);
                    } else {
                        join_at = i as int;
                    }
                }
                fill(&mut line_join, key, item)
            } else if *key == cap_key {
                assert(LayoutField::LineCap.key_spec() == key@);
                proof {
                    if line_cap is Some {
                        assert(listed[cap_at].0 == key@);
                    } else {
                        cap_at = i as int;
                    }
                }
                fill(&mut line_cap, key, item)
            } else if *key == image_key {
                assert(LayoutField::IconImage.key_spec() == key@);
                proof {
                    if icon_image is Some {
                        assert(listed[image_at].0 == key@);
                    } else {
                        image_at = i as int;
                    }
                }
                fill(&mut icon_image, key, item)
            } else if *key == size_key {
                assert(LayoutField::IconSize.key_spec() == key@);
                proof {
                    if icon_size is Some {
                        assert(listed[size_at].0 == key@);
                    } else {
                        size_at = i as int;
                    }
                }
                fill(&mut icon_size, key, item)
            } else {
                assert(!is_layout_key(key@)) by {
                    assert forall|field: LayoutField| field.key_spec() != key@ by {
                        match field {
                            LayoutField::LineJoin => {},
                            LayoutField::LineCap => {},
                            LayoutField::IconImage => {},
                            LayoutField::IconSize => {},
                        }
                    }
                }
                None
            };
            if let Some(error) = fault {
                proof {
                    lemma_first_some(layout_faults(listed), i as int);
                }
                return Err(error);
            }
            i = i + 1;
        }
        proof {
            if line_join is Some {
                lemma_value_of(listed, join_key@, join_at);
            }
            if line_cap is Some {
                lemma_value_of(listed, cap_key@, cap_at);
            }
            if icon_image is Some {
                lemma_value_of(listed, image_key@, image_at);
            }
            if icon_size is Some {
                lemma_value_of(listed, size_key@, size_at);
            }
        }
        Ok(
            Layout {
                line_join: settle(line_join),
                line_cap: settle(line_cap),
                icon_image: settle(icon_image),
                icon_size: settle(icon_size),
            },
        )
    }
}

} // verus!

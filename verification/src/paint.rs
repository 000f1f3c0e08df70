use crate::codec::{
    agrees, entry_fault, failure_of, fill_count, fill_text, first_some, lemma_first_some, opt_view,
    read_count_spec, read_text_spec, slot_tracks,
};
use crate::error::{DecodeError, ErrorKind, ErrorModel};
use crate::naming::{lemma_paint_keys, PaintField};
use crate::value::{entries_view, has_key, lemma_value_of, Value, value_of, ValueModel};
use vstd::prelude::*;

verus! {

/// The paint properties of a layer: both required, each of one shape.
#[derive(Debug, PartialEq, Eq)]
pub struct Paint {
    pub line_color: String,
    pub line_width: u32,
}

/// The mathematical reading of a [`Paint`].
pub struct PaintModel {
    pub line_color: Seq<char>,
    pub line_width: u32,
}

impl View for Paint {
    type V = PaintModel;

    open spec fn view(&self) -> PaintModel {
        PaintModel { line_color: self.line_color@, line_width: self.line_width }
    }
}

impl Clone for Paint {
    fn clone(&self) -> (copy: Paint)
        ensures
            copy@ == self@,
    {
        Paint { line_color: self.line_color.clone(), line_width: self.line_width }
    }
}

/// The object that stands for a paint record: both fields, in the order
/// of their declaration.
pub open spec fn encode_paint(paint: PaintModel) -> ValueModel {
    ValueModel::Object(
        seq![
            (PaintField::LineColor.key_spec(), ValueModel::String(paint.line_color)),
            (PaintField::LineWidth.key_spec(), ValueModel::Unsigned(paint.line_width as u64)),
        ],
    )
}

/// What entry `i` does wrong as an entry of a paint record. An entry whose
/// key names no field does nothing wrong: it is passed over.
pub open spec fn paint_fault(entries: Seq<(Seq<char>, ValueModel)>, i: int) -> Option<ErrorModel> {
    let key = entries[i].0;
    let item = entries[i].1;
    if key == PaintField::LineColor.key_spec() {
        entry_fault(entries, i, failure_of(read_text_spec(item)))
    } else if key == PaintField::LineWidth.key_spec() {
        entry_fault(entries, i, failure_of(read_count_spec(item)))
    } else {
        None
    }
}

/// The faults of the entries, in their order.
pub open spec fn paint_faults(entries: Seq<(Seq<char>, ValueModel)>) -> Seq<Option<ErrorModel>> {
    Seq::new(entries.len(), |i: int| paint_fault(entries, i))
}

/// The paint record that a value stands for. The value must be an object.
/// The first entry at fault decides, if there is one; then the first
/// required field without an entry; else each field has the value of its
/// one entry.
pub open spec fn decode_paint(value: ValueModel) -> Result<PaintModel, ErrorModel> {
    match value {
        ValueModel::Object(entries) => {
            let color = PaintField::LineColor.key_spec();
            let width = PaintField::LineWidth.key_spec();
            match first_some(paint_faults(entries)) {
                Some(fault) => Err(fault),
                None => {
                    if !has_key(entries, color) {
                        Err(ErrorModel::at(ErrorKind::MissingField, color))
                    } else if !has_key(entries, width) {
                        Err(ErrorModel::at(ErrorKind::MissingField, width))
                    } else {
                        Ok(
                            PaintModel {
                                line_color: read_text_spec(value_of(entries, color))->Ok_0,
                                line_width: read_count_spec(value_of(entries, width))->Ok_0,
                            },
                        )
                    }
                },
            }
        },
        _ => Err(ErrorModel::at_root(ErrorKind::TypeMismatch)),
    }
}

impl Paint {
    /// Encodes the record as an object with both fields.
    pub fn encode(&self) -> (value: Value)
        ensures
            value@ == encode_paint(self@),
    {
        let mut entries: Vec<(String, Value)> = Vec::new();
        entries.push((PaintField::LineColor.key(), Value::String(self.line_color.clone())));
        entries.push((PaintField::LineWidth.key(), Value::Unsigned(self.line_width as u64)));
        let value = Value::object(entries);
        assert(value@->Object_0 =~= encode_paint(self@)->Object_0);
        value
    }

    /// Decodes a record from an object.
    pub fn decode(value: &Value) -> (result: Result<Paint, DecodeError>)
        ensures
            agrees(result, decode_paint(value@)),
    {
        let entries = match value.entries() {
            Some(list) => list,
            None => {
                return Err(DecodeError::at_root(ErrorKind::TypeMismatch));
            },
        };
        let color_key = PaintField::LineColor.key();
        let width_key = PaintField::LineWidth.key();
        proof {
            lemma_paint_keys();
        }
        let ghost listed = entries_view(entries@);
        let mut line_color: Option<String> = None;
        let mut line_width: Option<u32> = None;
        let ghost mut color_at: int = 0;
        let ghost mut width_at: int = 0;
        let mut i: usize = 0;
        while i < entries.len()
            invariant
                i <= entries.len(),
                listed == entries_view(entries@),
                value@ == ValueModel::Object(listed),
                color_key@ == PaintField::LineColor.key_spec(),
                width_key@ == PaintField::LineWidth.key_spec(),
                color_key@ != width_key@,
                forall|j: int| 0 <= j < i ==> (#[trigger] paint_faults(listed)[j]) is None,
                slot_tracks(
                    listed,
                    color_key@,
                    i as int,
                    color_at,
                    opt_view(line_color),
                    read_text_spec(listed[color_at].1)->Ok_0,
                ),
                slot_tracks(
                    listed,
                    width_key@,
                    i as int,
                    width_at,
                    line_width,
                    read_count_spec(listed[width_at].1)->Ok_0,
                ),
            decreases entries.len() - i,
        {
            let key = &entries[i].0;
            let item = &entries[i].1;
            assert(listed[i as int] == (key@, item@));
            let fault = if *key == color_key {
                proof {
                    if line_color is Some {
                        assert(listed[color_at].0 == key@);
                    } else {
                        color_at = i as int;
                    }
                }
                fill_text(&mut line_color, key, item)
            } else if *key == width_key {
                proof {
                    if line_width is Some {
                        assert(listed[width_at].0 == key@);
                    } else {
                        width_at = i as int;
                    }
                }
                fill_count(&mut line_width, key, item)
            } else {
                None
            };
            if let Some(error) = fault {
                proof {
                    lemma_first_some(paint_faults(listed), i as int);
                }
                return Err(error);
            }
            i = i + 1;
        }
        let line_color = match line_color {
            Some(text) => text,
            None => {
                return Err(DecodeError::at(ErrorKind::MissingField, color_key));
            },
        };
        let line_width = match line_width {
            Some(count) => count,
            None => {
                return Err(DecodeError::at(ErrorKind::MissingField, width_key));
            },
        };
        proof {
            lemma_value_of(listed, color_key@, color_at);
            lemma_value_of(listed, width_key@, width_at);
        }
        Ok(Paint { line_color, line_width })
    }
}

} // verus!

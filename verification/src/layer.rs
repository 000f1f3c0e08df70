use crate::codec::{
    agrees, entry_fault, failure_of, fill_optional_number, fill_optional_text, fill_text,
    first_some, lemma_first_some, opt_view, optional, optional_entry, present, push_entry,
    push_optional, read_number_spec, read_text_spec, settle, slot_fault, slot_tracks, slot_view,
    unless_null,
};
use crate::error::{DecodeError, ErrorKind, ErrorModel};
use crate::layout::{decode_layout, encode_layout, Layout, LayoutModel};
use crate::naming::{LayerField, lemma_layer_keys};
use crate::number::Float64;
use crate::paint::{decode_paint, encode_paint, Paint, PaintModel};
use crate::value::{entries_view, has_key, lemma_value_of, Value, value_of, ValueModel};
use vstd::prelude::*;

verus! {

/// One layer of a style: what it draws, from which source, and how.
#[derive(Debug, PartialEq, Eq)]
pub struct Layer {
    pub id: String,
    pub layout: Option<Layout>,
    pub maxzoom: Option<Float64>,
    pub minzoom: Option<Float64>,
    pub paint: Option<Paint>,
    pub rendering_mode: Option<String>,
    pub source: String,
    pub source_layer: Option<String>,
    pub layer_type: String,
}

/// The mathematical reading of a [`Layer`].
pub struct LayerModel {
    pub id: Seq<char>,
    pub layout: Option<LayoutModel>,
    pub maxzoom: Option<Float64>,
    pub minzoom: Option<Float64>,
    pub paint: Option<PaintModel>,
    pub rendering_mode: Option<Seq<char>>,
    pub source: Seq<char>,
    pub source_layer: Option<Seq<char>>,
    pub layer_type: Seq<char>,
}

impl View for Layer {
    type V = LayerModel;

    open spec fn view(&self) -> LayerModel {
        LayerModel {
            id: self.id@,
            layout: opt_view(self.layout),
            maxzoom: self.maxzoom,
            minzoom: self.minzoom,
            paint: opt_view(self.paint),
            rendering_mode: opt_view(self.rendering_mode),
            source: self.source@,
            source_layer: opt_view(self.source_layer),
            layer_type: self.layer_type@,
        }
    }
}

impl LayerModel {
    /// The layer with the three required fields and nothing else.
    pub open spec fn bare(id: Seq<char>, layer_type: Seq<char>, source: Seq<char>) -> LayerModel {
        LayerModel {
            id,
            layout: None,
            maxzoom: None,
            minzoom: None,
            paint: None,
            rendering_mode: None,
            source,
            source_layer: None,
            layer_type,
        }
    }
}

/// What can stand where a text is expected: a string slice or a string.
pub trait IntoText {
    /// The text that the value holds.
    spec fn text(&self) -> Seq<char>;

    /// The value as an owned string.
    fn into_text(self) -> (owned: String)
        ensures
            owned@ == self.text(),
    ;
}

impl IntoText for &str {
    open spec fn text(&self) -> Seq<char> {
        self@
    }

    fn into_text(self) -> (owned: String) {
        self.to_string()
    }
}

impl IntoText for String {
    open spec fn text(&self) -> Seq<char> {
        self@
    }

    fn into_text(self) -> (owned: String) {
        self
    }
}

fn clone_text(text: &Option<String>) -> (copy: Option<String>)
    ensures
        opt_view(copy) == opt_view(*text),
{
    match text {
        Some(held) => Some(held.clone()),
        None => None,
    }
}

impl Clone for Layer {
    fn clone(&self) -> (copy: Layer)
        ensures
            copy@ == self@,
    {
        Layer {
            id: self.id.clone(),
            layout: match &self.layout {
                Some(held) => Some(held.clone()),
                None => None,
            },
            maxzoom: self.maxzoom,
            minzoom: self.minzoom,
            paint: match &self.paint {
                Some(held) => Some(held.clone()),
                None => None,
            },
            rendering_mode: clone_text(&self.rendering_mode),
            source: self.source.clone(),
            source_layer: clone_text(&self.source_layer),
            layer_type: self.layer_type.clone(),
        }
    }
}

impl Default for Layer {
    fn default() -> (layer: Layer)
        ensures
            layer@ == LayerModel::bare(Seq::empty(), Seq::empty(), Seq::empty()),
    {
        Layer {
            id: String::new(),
            layout: None,
            maxzoom: None,
            minzoom: None,
            paint: None,
            rendering_mode: None,
            source: String::new(),
            source_layer: None,
            layer_type: String::new(),
        }
    }
}

/// The encoded value of a layout record that may be absent.
pub open spec fn encode_optional_layout(layout: Option<LayoutModel>) -> Option<ValueModel> {
    match layout {
        Some(held) => Some(encode_layout(held)),
        None => None,
    }
}

/// The encoded value of a paint record that may be absent.
pub open spec fn encode_optional_paint(paint: Option<PaintModel>) -> Option<ValueModel> {
    match paint {
        Some(held) => Some(encode_paint(held)),
        None => None,
    }
}

/// The encoded value of a number that may be absent.
pub open spec fn encode_optional_number(number: Option<Float64>) -> Option<ValueModel> {
    match number {
        Some(held) => Some(ValueModel::Float(held)),
        None => None,
    }
}

/// The encoded value of a text that may be absent.
pub open spec fn encode_optional_text(text: Option<Seq<char>>) -> Option<ValueModel> {
    match text {
        Some(held) => Some(ValueModel::String(held)),
        None => None,
    }
}

/// The value that a layer writes for a field: always one for a required
/// field, none for an optional field that is absent.
pub open spec fn layer_entry_value(layer: LayerModel, field: LayerField) -> Option<ValueModel> {
    match field {
        LayerField::Id => Some(ValueModel::String(layer.id)),
        LayerField::Layout => encode_optional_layout(layer.layout),
        LayerField::Maxzoom => encode_optional_number(layer.maxzoom),
        LayerField::Minzoom => encode_optional_number(layer.minzoom),
        LayerField::Paint => encode_optional_paint(layer.paint),
        LayerField::RenderingMode => encode_optional_text(layer.rendering_mode),
        LayerField::Source => Some(ValueModel::String(layer.source)),
        LayerField::SourceLayer => encode_optional_text(layer.source_layer),
        LayerField::Type => Some(ValueModel::String(layer.layer_type)),
    }
}

/// The entry that a layer writes for a field, if it writes one.
pub open spec fn layer_entry(layer: LayerModel, field: LayerField) -> Seq<(Seq<char>, ValueModel)> {
    optional_entry(field.key_spec(), layer_entry_value(layer, field))
}

/// The object that stands for a layer: the entries of its fields in the
/// order of the fields' declaration, and no other entry.
pub open spec fn encode_layer(layer: LayerModel) -> ValueModel {
    ValueModel::Object(
        layer_entry(layer, LayerField::Id) + layer_entry(layer, LayerField::Layout) + layer_entry(
            layer,
            LayerField::Maxzoom,
        ) + layer_entry(layer, LayerField::Minzoom) + layer_entry(layer, LayerField::Paint)
            + layer_entry(layer, LayerField::RenderingMode) + layer_entry(layer, LayerField::Source)
            + layer_entry(layer, LayerField::SourceLayer) + layer_entry(layer, LayerField::Type),
    )
}

/// The field that a key names, if it names one.
pub open spec fn layer_field_of(key: Seq<char>) -> Option<LayerField> {
    if exists|field: LayerField| #[trigger] field.key_spec() == key {
        Some(choose|field: LayerField| #[trigger] field.key_spec() == key)
    } else {
        None
    }
}

/// The failure of reading a value as the value of a field.
pub open spec fn layer_failure(field: LayerField, item: ValueModel) -> Option<ErrorModel> {
    match field {
        LayerField::Id | LayerField::Source | LayerField::Type => failure_of(read_text_spec(item)),
        LayerField::Layout => unless_null(item, failure_of(decode_layout(item))),
        LayerField::Maxzoom | LayerField::Minzoom => unless_null(
            item,
            failure_of(read_number_spec(item)),
        ),
        LayerField::Paint => unless_null(item, failure_of(decode_paint(item))),
        LayerField::RenderingMode | LayerField::SourceLayer => unless_null(
            item,
            failure_of(read_text_spec(item)),
        ),
    }
}

/// What entry `i` does wrong as an entry of a layer. An entry whose key
/// names no field does nothing wrong: it is passed over.
pub open spec fn layer_fault(entries: Seq<(Seq<char>, ValueModel)>, i: int) -> Option<ErrorModel> {
    match layer_field_of(entries[i].0) {
        Some(field) => entry_fault(entries, i, layer_failure(field, entries[i].1)),
        None => None,
    }
}

/// The faults of the entries, in their order.
pub open spec fn layer_faults(entries: Seq<(Seq<char>, ValueModel)>) -> Seq<Option<ErrorModel>> {
    Seq::new(entries.len(), |i: int| layer_fault(entries, i))
}

/// The value that the entries give an optional field `key`, where
/// `reading` is what the value of the key's entry reads as: none where no
/// entry has the key, or where its value is `null`.
pub open spec fn optional_at<T>(
    entries: Seq<(Seq<char>, ValueModel)>,
    key: Seq<char>,
    reading: Result<T, ErrorModel>,
) -> Option<T> {
    if present(entries, key) {
        Some(reading->Ok_0)
    } else {
        None
    }
}

/// The layer that the entries of an object without a fault stand for, once
/// each required field is known to have an entry.
pub open spec fn layer_of(entries: Seq<(Seq<char>, ValueModel)>) -> LayerModel {
    let layout = LayerField::Layout.key_spec();
    let maxzoom = LayerField::Maxzoom.key_spec();
    let minzoom = LayerField::Minzoom.key_spec();
    let paint = LayerField::Paint.key_spec();
    let rendering_mode = LayerField::RenderingMode.key_spec();
    let source_layer = LayerField::SourceLayer.key_spec();
    LayerModel {
        id: read_text_spec(value_of(entries, LayerField::Id.key_spec()))->Ok_0,
        layout: optional_at(entries, layout, decode_layout(value_of(entries, layout))),
        maxzoom: optional_at(entries, maxzoom, read_number_spec(value_of(entries, maxzoom))),
        minzoom: optional_at(entries, minzoom, read_number_spec(value_of(entries, minzoom))),
        paint: optional_at(entries, paint, decode_paint(value_of(entries, paint))),
        rendering_mode: optional_at(
            entries,
            rendering_mode,
            read_text_spec(value_of(entries, rendering_mode)),
        ),
        source: read_text_spec(value_of(entries, LayerField::Source.key_spec()))->Ok_0,
        source_layer: optional_at(
            entries,
            source_layer,
            read_text_spec(value_of(entries, source_layer)),
        ),
        layer_type: read_text_spec(value_of(entries, LayerField::Type.key_spec()))->Ok_0,
    }
}

/// The layer that a value stands for. The value must be an object. The
/// first entry at fault decides, if there is one; then the first required
/// field without an entry, in the order of declaration; else each field
/// has the value of its one entry, an optional field without one none.
pub open spec fn decode_layer(value: ValueModel) -> Result<LayerModel, ErrorModel> {
    match value {
        ValueModel::Object(entries) => {
            match first_some(layer_faults(entries)) {
                Some(fault) => Err(fault),
                None => {
                    if !has_key(entries, LayerField::Id.key_spec()) {
                        Err(ErrorModel::at(ErrorKind::MissingField, LayerField::Id.key_spec()))
                    } else if !has_key(entries, LayerField::Source.key_spec()) {
                        Err(ErrorModel::at(ErrorKind::MissingField, LayerField::Source.key_spec()))
                    } else if !has_key(entries, LayerField::Type.key_spec()) {
                        Err(ErrorModel::at(ErrorKind::MissingField, LayerField::Type.key_spec()))
                    } else {
                        Ok(layer_of(entries))
                    }
                },
            }
        },
        _ => Err(ErrorModel::at_root(ErrorKind::TypeMismatch)),
    }
}

/// A field's key names that field and no other.
pub proof fn lemma_layer_field_of(field: LayerField)
    ensures
        layer_field_of(field.key_spec()) == Some(field),
{
    lemma_layer_keys();
    let chosen = choose|other: LayerField| #[trigger] other.key_spec() == field.key_spec();
    assert(chosen.key_spec() == field.key_spec());
}

/// Gives the layout field of `slot` the value of an entry with its key.
fn fill_layout(slot: &mut Option<Option<Layout>>, key: &String, item: &Value) -> (fault: Option<
    DecodeError,
>)
    ensures
        opt_view(fault) == slot_fault(
            *old(slot) is Some,
            key@,
            unless_null(item@, failure_of(decode_layout(item@))),
        ),
        fault is None ==> slot_view(*final(slot)) == Some(optional(item@, decode_layout(item@))),
        fault is Some ==> *final(slot) == *old(slot),
{
    if slot.is_some() {
        return Some(DecodeError::at(ErrorKind::MalformedInput, key.clone()));
    }
    match item {
        Value::Null => {
            *slot = Some(None);
            None
        },
        _ => match Layout::decode(item) {
            Ok(layout) => {
                *slot = Some(Some(layout));
                None
            },
            Err(error) => Some(error.under(key.clone())),
        },
    }
}

/// Gives the paint field of `slot` the value of an entry with its key.
fn fill_paint(slot: &mut Option<Option<Paint>>, key: &String, item: &Value) -> (fault: Option<
    DecodeError,
>)
    ensures
        opt_view(fault) == slot_fault(
            *old(slot) is Some,
            key@,
            unless_null(item@, failure_of(decode_paint(item@))),
        ),
        fault is None ==> slot_view(*final(slot)) == Some(optional(item@, decode_paint(item@))),
        fault is Some ==> *final(slot) == *old(slot),
{
    if slot.is_some() {
        return Some(DecodeError::at(ErrorKind::MalformedInput, key.clone()));
    }
    match item {
        Value::Null => {
            *slot = Some(None);
            None
        },
        _ => match Paint::decode(item) {
            Ok(paint) => {
                *slot = Some(Some(paint));
                None
            },
            Err(error) => Some(error.under(key.clone())),
        },
    }
}

fn encode_number(number: &Option<Float64>) -> (value: Option<Value>)
    ensures
        opt_view(value) == encode_optional_number(*number),
{
    match number {
        Some(held) => Some(Value::Float(*held)),
        None => None,
    }
}

fn encode_text(text: &Option<String>) -> (value: Option<Value>)
    ensures
        opt_view(value) == encode_optional_text(opt_view(*text)),
{
    match text {
        Some(held) => Some(Value::String(held.clone())),
        None => None,
    }
}

impl Layer {
    /// A layer with the three required fields and every optional field
    /// absent. Nothing is checked: an empty text is accepted.
    pub fn new<A: IntoText, B: IntoText, C: IntoText>(id: A, layer_type: B, source: C) -> (layer:
        Layer)
        ensures
            layer@ == LayerModel::bare(id.text(), layer_type.text(), source.text()),
    {
        Layer {
            id: id.into_text(),
            layout: None,
            maxzoom: None,
            minzoom: None,
            paint: None,
            rendering_mode: None,
            source: source.into_text(),
            source_layer: None,
            layer_type: layer_type.into_text(),
        }
    }

    /// Encodes the layer as an object: the required fields always, an
    /// optional field only where it has a value.
    pub fn encode(&self) -> (value: Value)
        ensures
            value@ == encode_layer(self@),
    {
        let mut entries: Vec<(String, Value)> = Vec::new();
        assert(entries_view(entries@) =~= Seq::empty());
        push_entry(&mut entries, LayerField::Id.key(), Value::String(self.id.clone()));
        let layout = match &self.layout {
            Some(held) => Some(held.encode()),
            None => None,
        };
        push_optional(&mut entries, LayerField::Layout.key(), layout);
        push_optional(&mut entries, LayerField::Maxzoom.key(), encode_number(&self.maxzoom));
        push_optional(&mut entries, LayerField::Minzoom.key(), encode_number(&self.minzoom));
        let paint = match &self.paint {
            Some(held) => Some(held.encode()),
            None => None,
        };
        push_optional(&mut entries, LayerField::Paint.key(), paint);
        push_optional(
            &mut entries,
            LayerField::RenderingMode.key(),
            encode_text(&self.rendering_mode),
        );
        push_entry(&mut entries, LayerField::Source.key(), Value::String(self.source.clone()));
        push_optional(&mut entries, LayerField::SourceLayer.key(), encode_text(&self.source_layer));
        push_entry(&mut entries, LayerField::Type.key(), Value::String(self.layer_type.clone()));
        let value = Value::object(entries);
        assert(value@->Object_0 =~= encode_layer(self@)->Object_0);
        value
    }

    /// Decodes a layer from an object.
    #[verifier::rlimit(50)]
    pub fn decode(value: &Value) -> (result: Result<Layer, DecodeError>)
        ensures
            agrees(result, decode_layer(value@)),
    {
        let entries = match value.entries() {
            Some(list) => list,
            None => {
                return Err(DecodeError::at_root(ErrorKind::TypeMismatch));
            },
        };
        let id_key = LayerField::Id.key();
        let layout_key = LayerField::Layout.key();
        let maxzoom_key = LayerField::Maxzoom.key();
        let minzoom_key = LayerField::Minzoom.key();
        let paint_key = LayerField::Paint.key();
        let mode_key = LayerField::RenderingMode.key();
        let source_key = LayerField::Source.key();
        let sublayer_key = LayerField::SourceLayer.key();
        let type_key = LayerField::Type.key();
        let ghost listed = entries_view(entries@);
        let mut id: Option<String> = None;
        let mut layout: Option<Option<Layout>> = None;
        let mut maxzoom: Option<Option<Float64>> = None;
        let mut minzoom: Option<Option<Float64>> = None;
        let mut paint: Option<Option<Paint>> = None;
        let mut mode: Option<Option<String>> = None;
        let mut source: Option<String> = None;
        let mut sublayer: Option<Option<String>> = None;
        let mut layer_type: Option<String> = None;
        let ghost mut id_at: int = 0;
        let ghost mut layout_at: int = 0;
        let ghost mut maxzoom_at: int = 0;
        let ghost mut minzoom_at: int = 0;
        let ghost mut paint_at: int = 0;
        let ghost mut mode_at: int = 0;
        let ghost mut source_at: int = 0;
        let ghost mut sublayer_at: int = 0;
        let ghost mut type_at: int = 0;
        let mut i: usize = 0;
        while i < entries.len()
            invariant
                i <= entries.len(),
                listed == entries_view(entries@),
                value@ == ValueModel::Object(listed),
                id_key@ == LayerField::Id.key_spec(),
                layout_key@ == LayerField::Layout.key_spec(),
                maxzoom_key@ == LayerField::Maxzoom.key_spec(),
                minzoom_key@ == LayerField::Minzoom.key_spec(),
                paint_key@ == LayerField::Paint.key_spec(),
                mode_key@ == LayerField::RenderingMode.key_spec(),
                source_key@ == LayerField::Source.key_spec(),
                sublayer_key@ == LayerField::SourceLayer.key_spec(),
                type_key@ == LayerField::Type.key_spec(),
                forall|j: int| 0 <= j < i ==> (#[trigger] layer_faults(listed)[j]) is None,
                slot_tracks(listed, id_key@, i as int, id_at, opt_view(id), read_text_spec(listed[id_at].1)->Ok_0),
                slot_tracks(listed, layout_key@, i as int, layout_at, slot_view(layout), optional(listed[layout_at].1, decode_layout(listed[layout_at].1))),
                slot_tracks(listed, maxzoom_key@, i as int, maxzoom_at, slot_view(maxzoom), optional(listed[maxzoom_at].1, read_number_spec(listed[maxzoom_at].1))),
                slot_tracks(listed, minzoom_key@, i as int, minzoom_at, slot_view(minzoom), optional(listed[minzoom_at].1, read_number_spec(listed[minzoom_at].1))),
                slot_tracks(listed, paint_key@, i as int, paint_at, slot_view(paint), optional(listed[paint_at].1, decode_paint(listed[paint_at].1))),
                slot_tracks(listed, mode_key@, i as int, mode_at, slot_view(mode), optional(listed[mode_at].1, read_text_spec(listed[mode_at].1))),
                slot_tracks(listed, source_key@, i as int, source_at, opt_view(source), read_text_spec(listed[source_at].1)->Ok_0),
                slot_tracks(listed, sublayer_key@, i as int, sublayer_at, slot_view(sublayer), optional(listed[sublayer_at].1, read_text_spec(listed[sublayer_at].1))),
                slot_tracks(listed, type_key@, i as int, type_at, opt_view(layer_type), read_text_spec(listed[type_at].1)->Ok_0),
            decreases entries.len() - i,
        {
            let key = &entries[i].0;
            let item = &entries[i].1;
            assert(listed[i as int] == (key@, item@));
            proof {
                lemma_layer_keys();
            }
            let fault = if *key == id_key {
                proof {
                    lemma_layer_field_of(LayerField::Id);
                    if id is Some {
                        assert(listed[id_at].0 == key@);
                    } else {
                        id_at = i as int;
                    }
                }
                fill_text(&mut id, key, item)
            } else if *key == layout_key {
                proof {
                    lemma_layer_field_of(LayerField::Layout);
                    if layout is Some {
                        assert(listed[layout_at].0 == key@);
                    } else {
                        layout_at = i as int;
                    }
                }
                fill_layout(&mut layout, key, item)
            } else if *key == maxzoom_key {
                proof {
                    lemma_layer_field_of(LayerField::Maxzoom);
                    if maxzoom is Some {
                        assert(listed[maxzoom_at].0 == key@);
                    } else {
                        maxzoom_at = i as int;
                    }
                }
                fill_optional_number(&mut maxzoom, key, item)
            } else if *key == minzoom_key {
                proof {
                    lemma_layer_field_of(LayerField::Minzoom);
                    if minzoom is Some {
                        assert(listed[minzoom_at].0 == key@);
                    } else {
                        minzoom_at = i as int;
                    }
                }
                fill_optional_number(&mut minzoom, key, item)
            } else if *key == paint_key {
                proof {
                    lemma_layer_field_of(LayerField::Paint);
                    if paint is Some {
                        assert(listed[paint_at].0 == key@);
                    } else {
                        paint_at = i as int;
                    }
                }
                fill_paint(&mut paint, key, item)
            } else if *key == mode_key {
                proof {
                    lemma_layer_field_of(LayerField::RenderingMode);
                    if mode is Some {
                        assert(listed[mode_at].0 == key@);
                    } else {
                        mode_at = i as int;
                    }
                }
                fill_optional_text(&mut mode, key, item)
            } else if *key == source_key {
                proof {
                    lemma_layer_field_of(LayerField::Source);
                    if source is Some {
                        assert(listed[source_at].0 == key@);
                    } else {
                        source_at = i as int;
                    }
                }
                fill_text(&mut source, key, item)
            } else if *key == sublayer_key {
                proof {
                    lemma_layer_field_of(LayerField::SourceLayer);
                    if sublayer is Some {
                        assert(listed[sublayer_at].0 == key@);
                    } else {
                        sublayer_at = i as int;
                    }
                }
                fill_optional_text(&mut sublayer, key, item)
            } else if *key == type_key {
                proof {
                    lemma_layer_field_of(LayerField::Type);
                    if layer_type is Some {
                        assert(listed[type_at].0 == key@);
                    } else {
                        type_at = i as int;
                    }
                }
                fill_text(&mut layer_type, key, item)
            } else {
                assert(layer_field_of(key@) is None) by {
                    assert forall|field: LayerField| field.key_spec() != key@ by {
                        match field {
                            LayerField::Id => {},
                            LayerField::Layout => {},
                            LayerField::Maxzoom => {},
                            LayerField::Minzoom => {},
                            LayerField::Paint => {},
                            LayerField::RenderingMode => {},
                            LayerField::Source => {},
                            LayerField::SourceLayer => {},
                            LayerField::Type => {},
                        }
                    }
                }
                None
            };
            if let Some(error) = fault {
                proof {
                    lemma_first_some(layer_faults(listed), i as int);
                }
                return Err(error);
            }
            i = i + 1;
        }
        let id = match id {
            Some(text) => text,
            None => {
                return Err(DecodeError::at(ErrorKind::MissingField, id_key));
            },
        };
        proof {
            lemma_value_of(listed, id_key@, id_at);
        }
        let source = match source {
            Some(text) => text,
            None => {
                return Err(DecodeError::at(ErrorKind::MissingField, source_key));
            },
        };
        proof {
            lemma_value_of(listed, source_key@, source_at);
        }
        let layer_type = match layer_type {
            Some(text) => text,
            None => {
                return Err(DecodeError::at(ErrorKind::MissingField, type_key));
            },
        };
        proof {
            lemma_value_of(listed, type_key@, type_at);
            if layout is Some {
                lemma_value_of(listed, layout_key@, layout_at);
            }
            if maxzoom is Some {
                lemma_value_of(listed, maxzoom_key@, maxzoom_at);
            }
            if minzoom is Some {
                lemma_value_of(listed, minzoom_key@, minzoom_at);
            }
            if paint is Some {
                lemma_value_of(listed, paint_key@, paint_at);
            }
            if mode is Some {
                lemma_value_of(listed, mode_key@, mode_at);
            }
            if sublayer is Some {
                lemma_value_of(listed, sublayer_key@, sublayer_at);
            }
        }
        Ok(
            Layer {
                id,
                layout: settle(layout),
                maxzoom: settle(maxzoom),
                minzoom: settle(minzoom),
                paint: settle(paint),
                rendering_mode: settle(mode),
                source,
                source_layer: settle(sublayer),
                layer_type,
            },
        )
    }
}

} // verus!

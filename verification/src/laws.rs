use crate::codec::{first_some, number_of, optional_entry};
use crate::error::{ErrorKind, ErrorModel};
use crate::layer::{
    decode_layer, encode_layer, layer_entry, layer_entry_value, layer_failure, layer_fault,
    layer_faults, layer_of, LayerModel, lemma_layer_field_of,
};
use crate::layout::{
    decode_layout, encode_layout, encode_optional_property, layout_entry, layout_fault,
    layout_faults, layout_property, LayoutModel, property_at,
};
use crate::naming::{
    LayerField, LayoutField, lemma_layer_keys, lemma_layout_keys, lemma_paint_keys, PaintField,
};
use crate::paint::{decode_paint, encode_paint, paint_fault, paint_faults, PaintModel};
use crate::property::{decode_property, encode_property, pair_of, PropertyModel};
use crate::value::{has_key, is_first, lemma_value_of, seen_before, value_of, ValueModel};
use vstd::prelude::*;

verus! {

/// Whether the entries give the key `key` the value `value`, in one entry
/// that is the first with the key, or give it none and have no entry with
/// the key.
pub open spec fn holds(
    entries: Seq<(Seq<char>, ValueModel)>,
    key: Seq<char>,
    value: Option<ValueModel>,
) -> bool {
    match value {
        Some(held) => exists|j: int| #[trigger] is_first(entries, key, j) && entries[j].1 == held,
        None => !has_key(entries, key),
    }
}

/// What the entries hold for a key is what a lookup of the key finds.
pub proof fn lemma_holds_value(
    entries: Seq<(Seq<char>, ValueModel)>,
    key: Seq<char>,
    value: Option<ValueModel>,
)
    requires
        holds(entries, key, value),
    ensures
        has_key(entries, key) == (value is Some),
        value is Some ==> value_of(entries, key) == value->0,
{
    if let Some(held) = value {
        let j = choose|j: int| #[trigger] is_first(entries, key, j) && entries[j].1 == held;
        lemma_value_of(entries, key, j);
    }
}

/// Appending the entry of a key that no entry has leaves the entries
/// before it as they are, and what they have seen of every key.
#[verifier::rlimit(50)]
pub proof fn lemma_append(
    entries: Seq<(Seq<char>, ValueModel)>,
    key: Seq<char>,
    value: Option<ValueModel>,
)
    requires
        !has_key(entries, key),
    ensures
        ({
            let extended = entries + optional_entry(key, value);
            &&& value is None ==> extended == entries
            &&& value is Some ==> extended == entries.push((key, value->0))
            &&& forall|other: Seq<char>, j: int|
                0 <= j <= entries.len() ==> #[trigger] seen_before(extended, other, j)
                    == seen_before(entries, other, j)
            &&& holds(extended, key, value)
            &&& forall|other: Seq<char>, held: Option<ValueModel>|
                other != key && holds(entries, other, held) ==> #[trigger] holds(
                    extended,
                    other,
                    held,
                )
        }),
{
    let extended = entries + optional_entry(key, value);
    let n = entries.len() as int;
    match value {
        None => {
            assert(extended =~= entries);
        },
        Some(held) => {
            assert(extended =~= entries.push((key, held)));
        },
    }
    assert forall|other: Seq<char>, j: int| 0 <= j <= n implies #[trigger] seen_before(
        extended,
        other,
        j,
    ) == seen_before(entries, other, j) by {
        if seen_before(extended, other, j) {
            let l = choose|l: int| 0 <= l < j && l < extended.len() && (#[trigger] extended[l]).0 == other;
            assert(entries[l].0 == other);
        }
        if seen_before(entries, other, j) {
            let l = choose|l: int| 0 <= l < j && l < entries.len() && (#[trigger] entries[l]).0 == other;
            assert(extended[l].0 == other);
        }
    }
    if value is Some {
        assert(!seen_before(extended, key, n));
        assert(is_first(extended, key, n));
    } else {
        assert(!has_key(extended, key));
    }
    assert forall|other: Seq<char>, held: Option<ValueModel>|
        other != key && holds(entries, other, held) implies #[trigger] holds(
        extended,
        other,
        held,
    ) by {
        match held {
            Some(inner) => {
                let j = choose|j: int| #[trigger] is_first(entries, other, j) && entries[j].1 == inner;
                assert(seen_before(extended, other, j) == seen_before(entries, other, j));
                assert(extended[j] == entries[j]);
                assert(is_first(extended, other, j));
            },
            None => {
                assert(seen_before(extended, other, n) == seen_before(entries, other, n));
                if seen_before(extended, other, extended.len() as int) {
                    let l = choose|l: int|
                        0 <= l < extended.len() && l < extended.len() && (#[trigger] extended[l]).0
                            == other;
                    if l < n {
                        assert(entries[l].0 == other);
                        assert(seen_before(entries, other, n));
                    }
                }
            },
        }
    }
}

/// Decoding an encoded paint record gives the record back.
pub proof fn paint_round_trip(paint: PaintModel)
    ensures
        decode_paint(encode_paint(paint)) == Ok::<PaintModel, ErrorModel>(paint),
{
    lemma_paint_keys();
    let color = PaintField::LineColor.key_spec();
    let width = PaintField::LineWidth.key_spec();
    let entries = encode_paint(paint)->Object_0;
    assert(entries[0].0 == color);
    assert(entries[1].0 == width);
    assert(!seen_before(entries, color, 0));
    assert(!seen_before(entries, width, 1));
    lemma_value_of(entries, color, 0);
    lemma_value_of(entries, width, 1);
    assert(paint_fault(entries, 0) is None);
    assert(paint_fault(entries, 1) is None);
    assert(first_some(paint_faults(entries)) is None);
}

/// Whether no entry of a layout record is at fault.
pub open spec fn layout_clean(entries: Seq<(Seq<char>, ValueModel)>) -> bool {
    forall|j: int| 0 <= j < entries.len() ==> (#[trigger] layout_fault(entries, j)) is None
}

/// Decoding an encoded property gives the property back.
pub proof fn property_round_trip(property: PropertyModel)
    ensures
        decode_property(encode_property(property)) == Ok::<PropertyModel, ErrorModel>(property),
        !(encode_property(property) is Null),
{
}

proof fn lemma_layout_step(
    layout: LayoutModel,
    entries: Seq<(Seq<char>, ValueModel)>,
    field: LayoutField,
)
    requires
        layout_clean(entries),
        !has_key(entries, field.key_spec()),
    ensures
        layout_clean(entries + layout_entry(layout, field)),
{
    let key = field.key_spec();
    let value = encode_optional_property(layout_property(layout, field));
    let extended = entries + layout_entry(layout, field);
    lemma_append(entries, key, value);
    assert forall|j: int| 0 <= j < extended.len() implies (#[trigger] layout_fault(
        extended,
        j,
    )) is None by {
        if j < entries.len() {
            assert(extended[j] == entries[j]);
            assert(seen_before(extended, entries[j].0, j) == seen_before(entries, entries[j].0, j));
            assert(layout_fault(entries, j) is None);
        } else {
            property_round_trip(layout_property(layout, field)->0);
            assert(seen_before(extended, key, j) == seen_before(entries, key, j));
        }
    }
}

/// The entries of an encoded layout record: none at fault, and for each
/// field what the record holds for it.
#[verifier::rlimit(50)]
pub proof fn lemma_layout_entries(layout: LayoutModel)
    ensures
        layout_clean(encode_layout(layout)->Object_0),
        forall|field: LayoutField| #[trigger]
            holds(
                encode_layout(layout)->Object_0,
                field.key_spec(),
                encode_optional_property(layout_property(layout, field)),
            ),
{
    lemma_layout_keys();
    let e0 = Seq::<(Seq<char>, ValueModel)>::empty();
    let e1 = e0 + layout_entry(layout, LayoutField::LineJoin);
    let e2 = e1 + layout_entry(layout, LayoutField::LineCap);
    let e3 = e2 + layout_entry(layout, LayoutField::IconImage);
    let e4 = e3 + layout_entry(layout, LayoutField::IconSize);
    let join = LayoutField::LineJoin.key_spec();
    let cap = LayoutField::LineCap.key_spec();
    let image = LayoutField::IconImage.key_spec();
    let size = LayoutField::IconSize.key_spec();
    assert(holds(e0, join, None) && holds(e0, cap, None) && holds(e0, image, None) && holds(
        e0,
        size,
        None,
    ));
    lemma_append(e0, join, encode_optional_property(layout.line_join));
    lemma_layout_step(layout, e0, LayoutField::LineJoin);
    assert(holds(e1, cap, None) && holds(e1, image, None) && holds(e1, size, None));
    lemma_append(e1, cap, encode_optional_property(layout.line_cap));
    lemma_layout_step(layout, e1, LayoutField::LineCap);
    assert(holds(e2, image, None) && holds(e2, size, None));
    lemma_append(e2, image, encode_optional_property(layout.icon_image));
    lemma_layout_step(layout, e2, LayoutField::IconImage);
    assert(holds(e3, size, None));
    lemma_append(e3, size, encode_optional_property(layout.icon_size));
    lemma_layout_step(layout, e3, LayoutField::IconSize);
    assert(e4 =~= encode_layout(layout)->Object_0);
    assert(holds(e2, join, encode_optional_property(layout.line_join)));
    assert(holds(e3, join, encode_optional_property(layout.line_join)));
    assert(holds(e4, join, encode_optional_property(layout.line_join)));
    assert(holds(e3, cap, encode_optional_property(layout.line_cap)));
    assert(holds(e4, cap, encode_optional_property(layout.line_cap)));
    assert(holds(e4, image, encode_optional_property(layout.icon_image)));
    assert forall|field: LayoutField| #[trigger]
        holds(e4, field.key_spec(), encode_optional_property(layout_property(layout, field))) by {
        match field {
            LayoutField::LineJoin => {},
            LayoutField::LineCap => {},
            LayoutField::IconImage => {},
            LayoutField::IconSize => {},
        }
    }
}

/// The property that decoding finds for a field in an encoded layout
/// record is the one that the record holds.
proof fn lemma_layout_field(layout: LayoutModel, field: LayoutField)
    ensures
        property_at(encode_layout(layout)->Object_0, field.key_spec()) == layout_property(
            layout,
            field,
        ),
{
    lemma_layout_entries(layout);
    let entries = encode_layout(layout)->Object_0;
    let value = encode_optional_property(layout_property(layout, field));
    assert(holds(entries, field.key_spec(), value));
    lemma_holds_value(entries, field.key_spec(), value);
    if let Some(property) = layout_property(layout, field) {
        property_round_trip(property);
    }
}

/// Decoding an encoded layout record gives the record back.
pub proof fn layout_round_trip(layout: LayoutModel)
    ensures
        decode_layout(encode_layout(layout)) == Ok::<LayoutModel, ErrorModel>(layout),
{
    lemma_layout_entries(layout);
    let entries = encode_layout(layout)->Object_0;
    assert(first_some(layout_faults(entries)) is None);
    lemma_layout_field(layout, LayoutField::LineJoin);
    lemma_layout_field(layout, LayoutField::LineCap);
    lemma_layout_field(layout, LayoutField::IconImage);
    lemma_layout_field(layout, LayoutField::IconSize);
}

/// A layout record writes an entry for a field exactly where it holds a
/// property for it.
pub proof fn layout_writes_present_fields(layout: LayoutModel, field: LayoutField)
    ensures
        has_key(encode_layout(layout)->Object_0, field.key_spec()) == (layout_property(
            layout,
            field,
        ) is Some),
{
    lemma_layout_entries(layout);
    let value = encode_optional_property(layout_property(layout, field));
    assert(holds(encode_layout(layout)->Object_0, field.key_spec(), value));
    lemma_holds_value(encode_layout(layout)->Object_0, field.key_spec(), value);
}

/// The place of a field in the order of declaration.
pub open spec fn position(field: LayerField) -> nat {
    match field {
        LayerField::Id => 0,
        LayerField::Layout => 1,
        LayerField::Maxzoom => 2,
        LayerField::Minzoom => 3,
        LayerField::Paint => 4,
        LayerField::RenderingMode => 5,
        LayerField::Source => 6,
        LayerField::SourceLayer => 7,
        LayerField::Type => 8,
    }
}

/// Whether no entry of a layer is at fault.
pub open spec fn layer_clean(entries: Seq<(Seq<char>, ValueModel)>) -> bool {
    forall|j: int| 0 <= j < entries.len() ==> (#[trigger] layer_fault(entries, j)) is None
}

/// Whether entry `j` is the entry that the layer writes for one of its fields.
pub open spec fn written_by(layer: LayerModel, entries: Seq<(Seq<char>, ValueModel)>, j: int) -> bool {
    exists|field: LayerField|
        entries[j].0 == #[trigger] field.key_spec() && layer_entry_value(layer, field) == Some(
            entries[j].1,
        )
}

/// Whether the entries hold for `field` what the layer writes for it, if
/// the field is among the first `n`, and nothing if it is not.
pub open spec fn field_state(
    layer: LayerModel,
    entries: Seq<(Seq<char>, ValueModel)>,
    field: LayerField,
    n: nat,
) -> bool {
    holds(
        entries,
        field.key_spec(),
        if position(field) < n {
            layer_entry_value(layer, field)
        } else {
            None
        },
    )
}

/// Whether the entries are those of the first `n` fields of the layer.
pub open spec fn layer_state(layer: LayerModel, entries: Seq<(Seq<char>, ValueModel)>, n: nat) -> bool {
    &&& layer_clean(entries)
    &&& forall|j: int| 0 <= j < entries.len() ==> #[trigger] written_by(layer, entries, j)
    &&& forall|field: LayerField| #[trigger] field_state(layer, entries, field, n)
}

/// What a layer writes for a field reads back without a failure, and is
/// never `null`.
proof fn lemma_layer_value_reads(layer: LayerModel, field: LayerField)
    ensures
        layer_entry_value(layer, field) matches Some(value) ==> layer_failure(field, value) is None
            && !(value is Null),
{
    if let Some(layout) = layer.layout {
        layout_round_trip(layout);
    }
    if let Some(paint) = layer.paint {
        paint_round_trip(paint);
    }
}

#[verifier::rlimit(50)]
proof fn lemma_layer_step(
    layer: LayerModel,
    entries: Seq<(Seq<char>, ValueModel)>,
    field: LayerField,
)
    requires
        layer_state(layer, entries, position(field)),
    ensures
        layer_state(layer, entries + layer_entry(layer, field), position(field) + 1),
{
    lemma_layer_keys();
    let key = field.key_spec();
    let value = layer_entry_value(layer, field);
    let extended = entries + layer_entry(layer, field);
    let n = position(field);
    assert(field_state(layer, entries, field, n));
    lemma_append(entries, key, value);
    lemma_layer_value_reads(layer, field);
    lemma_layer_field_of(field);
    assert forall|j: int| 0 <= j < extended.len() implies (#[trigger] layer_fault(
        extended,
        j,
    )) is None by {
        if j < entries.len() {
            assert(extended[j] == entries[j]);
            assert(seen_before(extended, entries[j].0, j) == seen_before(entries, entries[j].0, j));
            assert(layer_fault(entries, j) is None);
        } else {
            assert(seen_before(extended, key, j) == seen_before(entries, key, j));
        }
    }
    assert forall|j: int| 0 <= j < extended.len() implies #[trigger] written_by(
        layer,
        extended,
        j,
    ) by {
        if j < entries.len() {
            assert(extended[j] == entries[j]);
            assert(written_by(layer, entries, j));
            let named = choose|named: LayerField|
                entries[j].0 == #[trigger] named.key_spec() && layer_entry_value(layer, named)
                    == Some(entries[j].1);
            assert(extended[j].0 == named.key_spec());
        } else {
            assert(extended[j].0 == field.key_spec());
        }
    }
    assert forall|other: LayerField| #[trigger] field_state(layer, extended, other, n + 1) by {
        assert(field_state(layer, entries, other, n));
        if other != field {
            assert(other.key_spec() != key);
            assert(position(other) != n);
        }
    }
}

/// The entries of an encoded layer: none at fault, each the entry of a
/// field, and for each field what the layer writes for it.
#[verifier::rlimit(50)]
pub proof fn lemma_layer_entries(layer: LayerModel)
    ensures
        layer_state(layer, encode_layer(layer)->Object_0, 9),
{
    let e0 = Seq::<(Seq<char>, ValueModel)>::empty();
    let e1 = e0 + layer_entry(layer, LayerField::Id);
    let e2 = e1 + layer_entry(layer, LayerField::Layout);
    let e3 = e2 + layer_entry(layer, LayerField::Maxzoom);
    let e4 = e3 + layer_entry(layer, LayerField::Minzoom);
    let e5 = e4 + layer_entry(layer, LayerField::Paint);
    let e6 = e5 + layer_entry(layer, LayerField::RenderingMode);
    let e7 = e6 + layer_entry(layer, LayerField::Source);
    let e8 = e7 + layer_entry(layer, LayerField::SourceLayer);
    let e9 = e8 + layer_entry(layer, LayerField::Type);
    assert forall|field: LayerField| #[trigger] field_state(layer, e0, field, 0) by {}
    assert(layer_state(layer, e0, 0));
    lemma_layer_step(layer, e0, LayerField::Id);
    lemma_layer_step(layer, e1, LayerField::Layout);
    lemma_layer_step(layer, e2, LayerField::Maxzoom);
    lemma_layer_step(layer, e3, LayerField::Minzoom);
    lemma_layer_step(layer, e4, LayerField::Paint);
    lemma_layer_step(layer, e5, LayerField::RenderingMode);
    lemma_layer_step(layer, e6, LayerField::Source);
    lemma_layer_step(layer, e7, LayerField::SourceLayer);
    lemma_layer_step(layer, e8, LayerField::Type);
    assert(e9 =~= encode_layer(layer)->Object_0) by {
        assert(e1 =~= layer_entry(layer, LayerField::Id));
    }
}

/// What a lookup finds for a field in an encoded layer: the value that the
/// layer writes for the field, and an entry exactly where it writes one.
pub proof fn lemma_layer_lookup(layer: LayerModel, field: LayerField)
    ensures
        has_key(encode_layer(layer)->Object_0, field.key_spec()) == (layer_entry_value(
            layer,
            field,
        ) is Some),
        layer_entry_value(layer, field) matches Some(value) ==> value_of(
            encode_layer(layer)->Object_0,
            field.key_spec(),
        ) == value && !(value is Null),
{
    lemma_layer_entries(layer);
    let entries = encode_layer(layer)->Object_0;
    assert(field_state(layer, entries, field, 9));
    lemma_holds_value(entries, field.key_spec(), layer_entry_value(layer, field));
    lemma_layer_value_reads(layer, field);
}

/// Decoding an encoded layer gives the layer back, whichever optional
/// fields it has and whatever the shapes of its layout properties.
pub proof fn layer_round_trip(layer: LayerModel)
    ensures
        decode_layer(encode_layer(layer)) == Ok::<LayerModel, ErrorModel>(layer),
{
    lemma_layer_entries(layer);
    let entries = encode_layer(layer)->Object_0;
    assert(first_some(layer_faults(entries)) is None);
    lemma_layer_lookup(layer, LayerField::Id);
    lemma_layer_lookup(layer, LayerField::Layout);
    lemma_layer_lookup(layer, LayerField::Maxzoom);
    lemma_layer_lookup(layer, LayerField::Minzoom);
    lemma_layer_lookup(layer, LayerField::Paint);
    lemma_layer_lookup(layer, LayerField::RenderingMode);
    lemma_layer_lookup(layer, LayerField::Source);
    lemma_layer_lookup(layer, LayerField::SourceLayer);
    lemma_layer_lookup(layer, LayerField::Type);
    if let Some(layout) = layer.layout {
        layout_round_trip(layout);
    }
    if let Some(paint) = layer.paint {
        paint_round_trip(paint);
    }
    assert(layer_of(entries) == layer);
}

/// An encoded layer has an entry with a field's key exactly where the
/// field is required or has a value: an absent field leaves no key behind.
pub proof fn layer_writes_present_fields(layer: LayerModel, field: LayerField)
    ensures
        has_key(encode_layer(layer)->Object_0, field.key_spec()) == (layer_entry_value(
            layer,
            field,
        ) is Some),
        layer_entry_value(layer, field) is None <==> match field {
            LayerField::Id | LayerField::Source | LayerField::Type => false,
            LayerField::Layout => layer.layout is None,
            LayerField::Maxzoom => layer.maxzoom is None,
            LayerField::Minzoom => layer.minzoom is None,
            LayerField::Paint => layer.paint is None,
            LayerField::RenderingMode => layer.rendering_mode is None,
            LayerField::SourceLayer => layer.source_layer is None,
        },
{
    lemma_layer_lookup(layer, field);
}

/// Every entry of an encoded layer is the entry of one of its fields, and
/// none holds `null`.
pub proof fn layer_writes_only_fields(layer: LayerModel, j: int)
    requires
        0 <= j < encode_layer(layer)->Object_0.len(),
    ensures
        written_by(layer, encode_layer(layer)->Object_0, j),
        !(encode_layer(layer)->Object_0[j].1 is Null),
{
    lemma_layer_entries(layer);
    let entries = encode_layer(layer)->Object_0;
    assert(written_by(layer, entries, j));
    let named = choose|named: LayerField|
        entries[j].0 == #[trigger] named.key_spec() && layer_entry_value(layer, named) == Some(
            entries[j].1,
        );
    lemma_layer_value_reads(layer, named);
}

/// A layer with every optional field absent is encoded as an object with
/// exactly the keys `id`, `source` and `type`.
pub proof fn bare_layer_entries(id: Seq<char>, layer_type: Seq<char>, source: Seq<char>)
    ensures
        encode_layer(LayerModel::bare(id, layer_type, source)) == ValueModel::Object(
            seq![
                ("id"@, ValueModel::String(id)),
                ("source"@, ValueModel::String(source)),
                ("type"@, ValueModel::String(layer_type)),
            ],
        ),
{
    lemma_layer_keys();
    let layer = LayerModel::bare(id, layer_type, source);
    assert(encode_layer(layer)->Object_0 =~= seq![
        ("id"@, ValueModel::String(id)),
        ("source"@, ValueModel::String(source)),
        ("type"@, ValueModel::String(layer_type)),
    ]);
}

/// A paint object that lacks the key of a field never decodes; where no
/// entry is at fault, the failure is a missing field.
pub proof fn paint_needs_both_fields(entries: Seq<(Seq<char>, ValueModel)>, field: PaintField)
    requires
        !has_key(entries, field.key_spec()),
    ensures
        decode_paint(ValueModel::Object(entries)) is Err,
        first_some(paint_faults(entries)) is None ==> decode_paint(
            ValueModel::Object(entries),
        )->Err_0.kind == ErrorKind::MissingField,
        first_some(paint_faults(entries)) is None && has_key(
            entries,
            PaintField::LineColor.key_spec(),
        ) ==> decode_paint(ValueModel::Object(entries)) == Err::<PaintModel, ErrorModel>(
            ErrorModel::at(ErrorKind::MissingField, "line-width"@),
        ),
{
    lemma_paint_keys();
}

/// A layer object that lacks the key of `id`, `source` or `type` never
/// decodes; where no entry is at fault, the failure is a missing field.
pub proof fn layer_needs_required_fields(entries: Seq<(Seq<char>, ValueModel)>, field: LayerField)
    requires
        field == LayerField::Id || field == LayerField::Source || field == LayerField::Type,
        !has_key(entries, field.key_spec()),
    ensures
        decode_layer(ValueModel::Object(entries)) is Err,
        first_some(layer_faults(entries)) is None ==> decode_layer(
            ValueModel::Object(entries),
        )->Err_0.kind == ErrorKind::MissingField,
{
}

/// The shape of a value alone tells what property it is: an array of two
/// strings is a pair and never a failure; a number is a number; a string
/// is a text, whatever it spells; nothing else is a property.
pub proof fn property_shapes(value: ValueModel)
    ensures
        pair_of(value) matches Some(pair) ==> decode_property(value) == Ok::<
            PropertyModel,
            ErrorModel,
        >(PropertyModel::FeatureProperty(pair.0, pair.1)),
        number_of(value) matches Some(x) ==> decode_property(value) == Ok::<
            PropertyModel,
            ErrorModel,
        >(PropertyModel::Number(x)),
        value matches ValueModel::String(text) ==> decode_property(value) == Ok::<
            PropertyModel,
            ErrorModel,
        >(PropertyModel::String(text)),
        pair_of(value) is None && number_of(value) is None && !(value is String)
            ==> decode_property(value) == Err::<PropertyModel, ErrorModel>(
            ErrorModel::at_root(ErrorKind::UnrecognizedShape),
        ),
        value is Null || value is Bool || value is Object ==> decode_property(value) is Err,
        value matches ValueModel::Array(items) ==> (items.len() != 2 ==> decode_property(value) is Err),
{
}

} // verus!

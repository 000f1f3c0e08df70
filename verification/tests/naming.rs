use style_layer::naming::{camel_case, kebab_case, LayerField, LayoutField, PaintField};
use style_layer::number::Float64;

#[test]
fn camel_case_joins_words_with_capitals() {
    assert_eq!(camel_case("rendering_mode"), "renderingMode");
    assert_eq!(camel_case("source_layer"), "sourceLayer");
    assert_eq!(camel_case("id"), "id");
    assert_eq!(camel_case("a_b_c"), "aBC");
}

#[test]
fn camel_case_edge_cases() {
    assert_eq!(camel_case(""), "");
    assert_eq!(camel_case("_"), "");
    assert_eq!(camel_case("_foo"), "foo");
    assert_eq!(camel_case("foo__bar_"), "fooBar");
    assert_eq!(camel_case("Foo_bar"), "fooBar");
    assert_eq!(camel_case("x_1y"), "x1y");
    assert_eq!(camel_case("é_é"), "éé");
}

#[test]
fn kebab_case_replaces_underscores() {
    assert_eq!(kebab_case("line_join"), "line-join");
    assert_eq!(kebab_case("icon_image"), "icon-image");
    assert_eq!(kebab_case("plain"), "plain");
    assert_eq!(kebab_case(""), "");
    assert_eq!(kebab_case("__a_"), "--a-");
    assert_eq!(kebab_case("Line_Join"), "Line-Join");
}

#[test]
fn layer_keys() {
    let fields = [
        (LayerField::Id, "id", "id"),
        (LayerField::Layout, "layout", "layout"),
        (LayerField::Maxzoom, "maxzoom", "maxzoom"),
        (LayerField::Minzoom, "minzoom", "minzoom"),
        (LayerField::Paint, "paint", "paint"),
        (LayerField::RenderingMode, "rendering_mode", "renderingMode"),
        (LayerField::Source, "source", "source"),
        (LayerField::SourceLayer, "source_layer", "source-layer"),
        (LayerField::Type, "type", "type"),
    ];
    for (field, identifier, key) in fields {
        assert_eq!(field.identifier(), identifier);
        assert_eq!(field.key(), key);
    }
}

#[test]
fn only_source_layer_has_an_override() {
    assert_eq!(LayerField::SourceLayer.key_override(), Some("source-layer"));
    assert_eq!(LayerField::RenderingMode.key_override(), None);
    assert_eq!(LayerField::Id.key_override(), None);
}

#[test]
fn layout_and_paint_keys() {
    assert_eq!(LayoutField::LineJoin.key(), "line-join");
    assert_eq!(LayoutField::LineCap.key(), "line-cap");
    assert_eq!(LayoutField::IconImage.key(), "icon-image");
    assert_eq!(LayoutField::IconSize.key(), "icon-size");
    assert_eq!(LayoutField::IconSize.identifier(), "icon_size");
    assert_eq!(PaintField::LineColor.key(), "line-color");
    assert_eq!(PaintField::LineWidth.key(), "line-width");
    assert_eq!(PaintField::LineWidth.identifier(), "line_width");
}

#[test]
fn bits_pass_through() {
    let x = Float64::from_bits(0.25f64.to_bits());
    assert_eq!(x.to_bits(), 0x3FD0_0000_0000_0000);
    assert_eq!(f64::from_bits(x.to_bits()), 0.25);
}

#[test]
fn small_integers_convert_exactly() {
    assert_eq!(Float64::from_u64(0).bits, 0);
    assert_eq!(Float64::from_u64(1).bits, 0x3FF0_0000_0000_0000);
    assert_eq!(Float64::from_u64(2).bits, 0x4000_0000_0000_0000);
    assert_eq!(Float64::from_u64(3).bits, 0x4008_0000_0000_0000);
    for n in 0..5000u64 {
        assert_eq!(Float64::from_u64(n).bits, (n as f64).to_bits());
    }
}

#[test]
fn large_integers_round_to_nearest_even() {
    let two53 = 1u64 << 53;
    let cases = [
        two53 - 1,
        two53,
        two53 + 1,
        two53 + 2,
        two53 + 3,
        two53 + 4,
        (1u64 << 54) + 2,
        (1u64 << 54) + 6,
        (1u64 << 63) - 1,
        1u64 << 63,
        (1u64 << 63) + 1024,
        (1u64 << 63) + 1025,
        (1u64 << 63) + 3072,
        u64::MAX - 1024,
        u64::MAX - 1023,
        u64::MAX,
    ];
    for n in cases {
        assert_eq!(Float64::from_u64(n).bits, (n as f64).to_bits());
    }
    assert_eq!(Float64::from_u64(two53 + 1).bits, Float64::from_u64(two53).bits);
    assert_eq!(Float64::from_u64(two53 + 3).bits, Float64::from_u64(two53 + 4).bits);
    assert_eq!(Float64::from_u64(u64::MAX).bits, 0x43F0_0000_0000_0000);
}

#[test]
fn conversion_agrees_with_the_machine_on_scattered_values() {
    let mut state: u64 = 0x9E37_79B9_7F4A_7C15;
    for _ in 0..20000 {
        state = state.wrapping_mul(6364136223846793005).wrapping_add(1442695040888963407);
        for shift in [0u32, 5, 10, 11, 12, 20, 40] {
            let n = state >> shift;
            assert_eq!(Float64::from_u64(n).bits, (n as f64).to_bits());
            let i = n as i64;
            assert_eq!(Float64::from_i64(i).bits, (i as f64).to_bits());
        }
    }
}

#[test]
fn signed_integers_carry_the_sign() {
    assert_eq!(Float64::from_i64(0).bits, 0);
    assert_eq!(Float64::from_i64(-1).bits, 0xBFF0_0000_0000_0000);
    for n in [1i64, -2, 7, -7, i64::MAX, i64::MIN, i64::MIN + 1, -(1i64 << 53) - 1] {
        assert_eq!(Float64::from_i64(n).bits, (n as f64).to_bits());
    }
}

use style_layer::error::{DecodeError, ErrorKind};
use style_layer::layer::Layer;
use style_layer::layout::Layout;
use style_layer::number::Float64;
use style_layer::paint::Paint;
use style_layer::property::LayoutProperty;
use style_layer::value::Value;

fn text(s: &str) -> Value {
    Value::String(s.to_string())
}

fn float(x: f64) -> Value {
    Value::Float(Float64::from_bits(x.to_bits()))
}

fn number(x: f64) -> Float64 {
    Float64::from_bits(x.to_bits())
}

fn object(entries: Vec<(&str, Value)>) -> Value {
    Value::Object(entries.into_iter().map(|(k, v)| (k.to_string(), v)).collect())
}

fn keys(value: &Value) -> Vec<String> {
    match value {
        Value::Object(entries) => entries.iter().map(|(k, _)| k.clone()).collect(),
        _ => panic!("not an object"),
    }
}

fn path(error: &DecodeError) -> Vec<&str> {
    error.path.iter().map(|s| s.as_str()).collect()
}

fn from_json(value: &serde_json::Value) -> Value {
    match value {
        serde_json::Value::Null => Value::Null,
        serde_json::Value::Bool(b) => Value::Bool(*b),
        serde_json::Value::Number(n) => {
            if let Some(u) = n.as_u64() {
                Value::Unsigned(u)
            } else if let Some(i) = n.as_i64() {
                Value::Signed(i)
            } else {
                float(n.as_f64().unwrap())
            }
        }
        serde_json::Value::String(s) => Value::String(s.clone()),
        serde_json::Value::Array(items) => Value::Array(items.iter().map(from_json).collect()),
        serde_json::Value::Object(map) => {
            Value::Object(map.iter().map(|(k, v)| (k.clone(), from_json(v))).collect())
        }
    }
}

fn to_json(value: &Value) -> serde_json::Value {
    match value {
        Value::Null => serde_json::Value::Null,
        Value::Bool(b) => serde_json::Value::Bool(*b),
        Value::Unsigned(n) => serde_json::Value::from(*n),
        Value::Signed(n) => serde_json::Value::from(*n),
        Value::Float(x) => serde_json::Value::from(f64::from_bits(x.to_bits())),
        Value::String(s) => serde_json::Value::String(s.clone()),
        Value::Array(items) => serde_json::Value::Array(items.iter().map(to_json).collect()),
        Value::Object(entries) => {
            let mut map = serde_json::Map::new();
            for (k, v) in entries {
                map.insert(k.clone(), to_json(v));
            }
            serde_json::Value::Object(map)
        }
    }
}

fn parse(input: &str) -> Value {
    let parsed: serde_json::Value = serde_json::from_str(input).unwrap();
    from_json(&parsed)
}

fn full_layer() -> Layer {
    let mut layer = Layer::new("roads", "line", "osm");
    layer.source_layer = Some("road".to_string());
    layer.rendering_mode = Some("fast".to_string());
    layer.minzoom = Some(number(2.5));
    layer.maxzoom = Some(number(18.0));
    layer.layout = Some(Layout {
        line_join: Some(LayoutProperty::from("round")),
        line_cap: None,
        icon_image: Some(LayoutProperty::from(("get", "icon"))),
        icon_size: Some(LayoutProperty::from(number(0.25))),
    });
    layer.paint = Some(Paint { line_color: "#fff".to_string(), line_width: 2 });
    layer
}

#[test]
fn new_sets_required_fields_only() {
    let layer = Layer::new("r", "line", "s");
    assert_eq!(layer.id, "r");
    assert_eq!(layer.layer_type, "line");
    assert_eq!(layer.source, "s");
    assert_eq!(layer.layout, None);
    assert_eq!(layer.maxzoom, None);
    assert_eq!(layer.minzoom, None);
    assert_eq!(layer.paint, None);
    assert_eq!(layer.rendering_mode, None);
    assert_eq!(layer.source_layer, None);
}

#[test]
fn new_accepts_owned_and_empty_texts() {
    let layer = Layer::new(String::from("a"), "", String::new());
    assert_eq!(layer.id, "a");
    assert_eq!(layer.layer_type, "");
    assert_eq!(layer.source, "");
}

#[test]
fn default_layer_is_empty() {
    let layer = Layer::default();
    assert_eq!(layer, Layer::new("", "", ""));
}

#[test]
fn clone_keeps_every_field() {
    let layer = full_layer();
    assert_eq!(layer.clone(), layer);
}

#[test]
fn property_from_text() {
    assert_eq!(LayoutProperty::from("round"), LayoutProperty::String("round".to_string()));
    assert_eq!(
        LayoutProperty::from(String::from("butt")),
        LayoutProperty::String("butt".to_string())
    );
}

#[test]
fn property_from_number() {
    assert_eq!(LayoutProperty::from(number(0.25)), LayoutProperty::Number(number(0.25)));
}

#[test]
fn property_from_pair() {
    let expected = LayoutProperty::FeatureProperty(("get".to_string(), "icon".to_string()));
    assert_eq!(LayoutProperty::from(("get", "icon")), expected);
    assert_eq!(LayoutProperty::from(("get".to_string(), "icon".to_string())), expected);
}

#[test]
fn round_trip_of_a_full_layer() {
    let layer = full_layer();
    assert_eq!(Layer::decode(&layer.encode()), Ok(layer));
}

#[test]
fn round_trip_of_a_bare_layer() {
    let layer = Layer::new("", "", "");
    assert_eq!(Layer::decode(&layer.encode()), Ok(layer));
}

#[test]
fn round_trip_of_each_property_variant_in_each_field() {
    let variants = vec![
        LayoutProperty::from("0.25"),
        LayoutProperty::from(number(-1.5e300)),
        LayoutProperty::from(number(f64::NAN)),
        LayoutProperty::from(("get", "")),
    ];
    for a in &variants {
        for b in &variants {
            let layout = Layout {
                line_join: Some(a.clone()),
                line_cap: Some(b.clone()),
                icon_image: None,
                icon_size: Some(a.clone()),
            };
            assert_eq!(Layout::decode(&layout.encode()), Ok(layout.clone()));
            let other = Layout {
                line_join: None,
                line_cap: None,
                icon_image: Some(b.clone()),
                icon_size: None,
            };
            assert_eq!(Layout::decode(&other.encode()), Ok(other));
        }
    }
}

#[test]
fn round_trip_of_paint() {
    let paint = Paint { line_color: "#abc".to_string(), line_width: u32::MAX };
    assert_eq!(Paint::decode(&paint.encode()), Ok(paint));
}

#[test]
fn bare_layer_has_exactly_three_keys() {
    let value = Layer::new("r", "line", "s").encode();
    assert_eq!(
        value,
        object(vec![("id", text("r")), ("source", text("s")), ("type", text("line"))])
    );
}

#[test]
fn empty_required_fields_are_written() {
    let value = Layer::new("", "", "").encode();
    assert_eq!(keys(&value), vec!["id", "source", "type"]);
}

#[test]
fn empty_layout_is_an_empty_object() {
    let layout = Layout { line_join: None, line_cap: None, icon_image: None, icon_size: None };
    assert_eq!(layout.encode(), Value::Object(vec![]));
}

#[test]
fn full_layer_writes_fields_in_declared_order() {
    let value = full_layer().encode();
    assert_eq!(
        keys(&value),
        vec![
            "id",
            "layout",
            "maxzoom",
            "minzoom",
            "paint",
            "renderingMode",
            "source",
            "source-layer",
            "type"
        ]
    );
}

#[test]
fn source_layer_key_is_hyphenated() {
    let mut layer = Layer::new("r", "line", "s");
    layer.source_layer = Some("road".to_string());
    let value = layer.encode();
    assert!(keys(&value).contains(&"source-layer".to_string()));
    assert!(!keys(&value).contains(&"sourceLayer".to_string()));
    assert!(!keys(&value).contains(&"source_layer".to_string()));
}

#[test]
fn layout_keys_are_hyphenated() {
    let layout = Layout {
        line_join: Some(LayoutProperty::from("round")),
        line_cap: Some(LayoutProperty::from("butt")),
        icon_image: Some(LayoutProperty::from("x")),
        icon_size: Some(LayoutProperty::from(number(1.0))),
    };
    assert_eq!(keys(&layout.encode()), vec!["line-join", "line-cap", "icon-image", "icon-size"]);
}

#[test]
fn paint_writes_both_fields() {
    let paint = Paint { line_color: String::new(), line_width: 0 };
    assert_eq!(
        paint.encode(),
        object(vec![("line-color", text("")), ("line-width", Value::Unsigned(0))])
    );
}

#[test]
fn property_encodes_in_its_shape() {
    assert_eq!(LayoutProperty::from("round").encode(), text("round"));
    assert_eq!(LayoutProperty::from(number(0.25)).encode(), float(0.25));
    assert_eq!(
        LayoutProperty::from(("get", "icon")).encode(),
        Value::Array(vec![text("get"), text("icon")])
    );
}

#[test]
fn pair_of_strings_decodes_as_feature_property() {
    assert_eq!(
        LayoutProperty::decode(&parse(r#"["get","icon"]"#)),
        Ok(LayoutProperty::FeatureProperty(("get".to_string(), "icon".to_string())))
    );
}

#[test]
fn number_decodes_as_number() {
    assert_eq!(LayoutProperty::decode(&parse("0.25")), Ok(LayoutProperty::Number(number(0.25))));
}

#[test]
fn integer_decodes_as_the_nearest_number() {
    assert_eq!(LayoutProperty::decode(&parse("2")), Ok(LayoutProperty::Number(number(2.0))));
    assert_eq!(LayoutProperty::decode(&parse("-7")), Ok(LayoutProperty::Number(number(-7.0))));
    assert_eq!(
        LayoutProperty::decode(&parse("18446744073709551615")),
        Ok(LayoutProperty::Number(number(18446744073709551615u64 as f64)))
    );
}

#[test]
fn string_decodes_as_string() {
    assert_eq!(
        LayoutProperty::decode(&parse(r#""round""#)),
        Ok(LayoutProperty::String("round".to_string()))
    );
}

#[test]
fn numeric_looking_string_stays_a_string() {
    assert_eq!(
        LayoutProperty::decode(&parse(r#""0.25""#)),
        Ok(LayoutProperty::String("0.25".to_string()))
    );
}

#[test]
fn other_shapes_are_unrecognized() {
    for input in ["true", "null", "{}", r#"["a","b","c"]"#, r#"["a"]"#, "[]", r#"["a",1]"#, r#"[1,"a"]"#]
    {
        let error = LayoutProperty::decode(&parse(input)).unwrap_err();
        assert_eq!(error.kind, ErrorKind::UnrecognizedShape);
        assert!(error.path.is_empty());
    }
}

#[test]
fn paint_without_line_width_is_missing_field() {
    let error = Paint::decode(&parse(r##"{"line-color":"#fff"}"##)).unwrap_err();
    assert_eq!(error.kind, ErrorKind::MissingField);
    assert_eq!(path(&error), vec!["line-width"]);
}

#[test]
fn paint_without_line_color_is_missing_field() {
    let error = Paint::decode(&parse(r#"{"line-width":2}"#)).unwrap_err();
    assert_eq!(error.kind, ErrorKind::MissingField);
    assert_eq!(path(&error), vec!["line-color"]);
}

#[test]
fn paint_line_width_given_a_string_is_type_mismatch() {
    let error = Paint::decode(&parse(r##"{"line-color":"#fff","line-width":"2"}"##)).unwrap_err();
    assert_eq!(error.kind, ErrorKind::TypeMismatch);
    assert_eq!(path(&error), vec!["line-width"]);
}

#[test]
fn paint_line_width_must_be_a_count() {
    for width in ["2.0", "-1", "4294967296", "null", "[2]"] {
        let input = format!(r##"{{"line-color":"#fff","line-width":{}}}"##, width);
        let error = Paint::decode(&parse(&input)).unwrap_err();
        assert_eq!(error.kind, ErrorKind::TypeMismatch);
    }
    let widest = Paint::decode(&parse(r##"{"line-color":"#fff","line-width":4294967295}"##));
    assert_eq!(widest, Ok(Paint { line_color: "#fff".to_string(), line_width: 4294967295 }));
    let signed = object(vec![("line-color", text("c")), ("line-width", Value::Signed(7))]);
    assert_eq!(Paint::decode(&signed), Ok(Paint { line_color: "c".to_string(), line_width: 7 }));
}

#[test]
fn value_that_is_no_object_is_type_mismatch() {
    for input in ["[]", "1", r#""x""#, "null", "true"] {
        let value = parse(input);
        let layer = Layer::decode(&value).unwrap_err();
        assert_eq!(layer.kind, ErrorKind::TypeMismatch);
        assert!(layer.path.is_empty());
        assert_eq!(Paint::decode(&value).unwrap_err().kind, ErrorKind::TypeMismatch);
        assert_eq!(Layout::decode(&value).unwrap_err().kind, ErrorKind::TypeMismatch);
    }
}

#[test]
fn repeated_key_is_malformed_input() {
    let value = object(vec![
        ("id", text("a")),
        ("source", text("s")),
        ("id", text("b")),
        ("type", text("line")),
    ]);
    let error = Layer::decode(&value).unwrap_err();
    assert_eq!(error.kind, ErrorKind::MalformedInput);
    assert_eq!(path(&error), vec!["id"]);
}

#[test]
fn repeated_unknown_key_is_passed_over() {
    let value = object(vec![
        ("id", text("a")),
        ("x", text("1")),
        ("source", text("s")),
        ("x", Value::Bool(true)),
        ("type", text("line")),
    ]);
    assert_eq!(Layer::decode(&value), Ok(Layer::new("a", "line", "s")));
}

#[test]
fn first_entry_at_fault_decides() {
    let value = object(vec![
        ("minzoom", text("low")),
        ("id", Value::Unsigned(1)),
        ("minzoom", float(1.0)),
    ]);
    let error = Layer::decode(&value).unwrap_err();
    assert_eq!(error.kind, ErrorKind::TypeMismatch);
    assert_eq!(path(&error), vec!["minzoom"]);
    let value = object(vec![("type", text("a")), ("type", Value::Unsigned(1))]);
    let error = Layer::decode(&value).unwrap_err();
    assert_eq!(error.kind, ErrorKind::MalformedInput);
    assert_eq!(path(&error), vec!["type"]);
}

#[test]
fn fault_comes_before_missing_field() {
    let value = object(vec![("source", text("s")), ("paint", text("red"))]);
    let error = Layer::decode(&value).unwrap_err();
    assert_eq!(error.kind, ErrorKind::TypeMismatch);
    assert_eq!(path(&error), vec!["paint"]);
}

#[test]
fn missing_required_fields_in_declared_order() {
    let error = Layer::decode(&parse("{}")).unwrap_err();
    assert_eq!((error.kind, path(&error)), (ErrorKind::MissingField, vec!["id"]));
    let error = Layer::decode(&parse(r#"{"type":"line","id":"r"}"#)).unwrap_err();
    assert_eq!((error.kind, path(&error)), (ErrorKind::MissingField, vec!["source"]));
    let error = Layer::decode(&parse(r#"{"source":"s","id":"r"}"#)).unwrap_err();
    assert_eq!((error.kind, path(&error)), (ErrorKind::MissingField, vec!["type"]));
}

#[test]
fn nested_failure_names_the_whole_path() {
    let input = r##"{"id":"r","source":"s","type":"line","paint":{"line-color":"#fff"}}"##;
    let error = Layer::decode(&parse(input)).unwrap_err();
    assert_eq!(error.kind, ErrorKind::MissingField);
    assert_eq!(path(&error), vec!["paint", "line-width"]);
    assert_eq!(error.path_text(), "paint.line-width");
    let input = r#"{"id":"r","source":"s","type":"line","layout":{"icon-size":true}}"#;
    let error = Layer::decode(&parse(input)).unwrap_err();
    assert_eq!(error.kind, ErrorKind::UnrecognizedShape);
    assert_eq!(path(&error), vec!["layout", "icon-size"]);
    assert_eq!(error.path_text(), "layout.icon-size");
}

#[test]
fn path_text_of_short_paths() {
    assert_eq!(DecodeError::at_root(ErrorKind::TypeMismatch).path_text(), "");
    assert_eq!(DecodeError::at(ErrorKind::MissingField, "id".to_string()).path_text(), "id");
    let nested = DecodeError::at(ErrorKind::MissingField, "c".to_string())
        .under("b".to_string())
        .under("a".to_string());
    assert_eq!(nested.path_text(), "a.b.c");
    assert_eq!(nested.kind, ErrorKind::MissingField);
}

#[test]
fn null_stands_for_an_absent_optional_field() {
    let input = r#"{"id":"r","source":"s","type":"line","layout":null,"paint":null,
        "minzoom":null,"maxzoom":null,"renderingMode":null,"source-layer":null}"#;
    assert_eq!(Layer::decode(&parse(input)), Ok(Layer::new("r", "line", "s")));
    let layout = Layout::decode(&parse(r#"{"line-join":null,"icon-size":1}"#)).unwrap();
    assert_eq!(layout.line_join, None);
    assert_eq!(layout.icon_size, Some(LayoutProperty::Number(number(1.0))));
}

#[test]
fn null_is_no_required_text() {
    let error = Layer::decode(&parse(r#"{"id":null,"source":"s","type":"line"}"#)).unwrap_err();
    assert_eq!((error.kind, path(&error)), (ErrorKind::TypeMismatch, vec!["id"]));
}

#[test]
fn mixed_case_key_of_source_layer_is_not_read() {
    let input = r#"{"id":"r","source":"s","type":"line","sourceLayer":"road","rendering_mode":"x"}"#;
    assert_eq!(Layer::decode(&parse(input)), Ok(Layer::new("r", "line", "s")));
}

#[test]
fn zoom_bounds_take_integers_and_floats() {
    let input = r#"{"id":"r","source":"s","type":"line","minzoom":5,"maxzoom":12.5}"#;
    let layer = Layer::decode(&parse(input)).unwrap();
    assert_eq!(layer.minzoom, Some(number(5.0)));
    assert_eq!(layer.maxzoom, Some(number(12.5)));
    let input = r#"{"id":"r","source":"s","type":"line","minzoom":"5"}"#;
    let error = Layer::decode(&parse(input)).unwrap_err();
    assert_eq!((error.kind, path(&error)), (ErrorKind::TypeMismatch, vec!["minzoom"]));
}

#[test]
fn decodes_a_layer_with_a_layout() {
    let input = r#"{
      "id": "roads",
      "source": "osm",
      "source-layer": "road",
      "type": "line",
      "layout": { "line-join": "round", "icon-size": 0.25 }
    }"#;
    let mut expected = Layer::new("roads", "line", "osm");
    expected.source_layer = Some("road".to_string());
    expected.layout = Some(Layout {
        line_join: Some(LayoutProperty::from("round")),
        line_cap: None,
        icon_image: None,
        icon_size: Some(LayoutProperty::from(number(0.25))),
    });
    assert_eq!(Layer::decode(&parse(input)), Ok(expected.clone()));
    let again: serde_json::Value = serde_json::from_str(input).unwrap();
    assert_eq!(to_json(&expected.encode()), again);
}

#[test]
fn decode_then_encode_keeps_keys_and_values() {
    let input =
        r##"{"id":"r","source":"s","type":"line","paint":{"line-color":"#fff","line-width":2}}"##;
    let layer = Layer::decode(&parse(input)).unwrap();
    let mut expected = Layer::new("r", "line", "s");
    expected.paint = Some(Paint { line_color: "#fff".to_string(), line_width: 2 });
    assert_eq!(layer, expected);
    let given: serde_json::Value = serde_json::from_str(input).unwrap();
    let encoded = to_json(&layer.encode());
    assert_eq!(encoded, given);
    let written: Vec<&String> = encoded.as_object().unwrap().keys().collect();
    assert_eq!(written, vec!["id", "paint", "source", "type"]);
    assert_eq!(serde_json::to_string(&encoded).unwrap().len(), input.len());
}

#[test]
fn value_clone_is_deep() {
    let value = full_layer().encode();
    assert_eq!(value.clone(), value);
}

#[test]
fn value_accessors_tell_the_shapes_apart() {
    let array = Value::array(vec![text("a")]);
    assert_eq!(array.items().map(|items| items.len()), Some(1));
    assert!(array.entries().is_none());
    assert!(array.text().is_none());
    let record = Value::object(vec![("k".to_string(), Value::Null)]);
    assert_eq!(record.entries().map(|entries| entries.len()), Some(1));
    assert!(record.items().is_none());
    assert_eq!(text("x").text(), Some(&"x".to_string()));
}

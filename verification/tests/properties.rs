use ron::value::F64;
use ron_convert::{
    default_output_type, parse, plan_conversion, serialize, shape_defect, source_format,
    translate, AbstractValue, Conversion, ConversionError, Integer, OutputType, PlanError,
    ShapeDefect,
};

fn text(s: &str) -> AbstractValue {
    AbstractValue::Text(s.to_string())
}

fn whole(i: i64) -> AbstractValue {
    AbstractValue::Integer(Integer::Signed(i))
}

fn float(x: f64) -> AbstractValue {
    AbstractValue::Float(F64::new(x))
}

fn nested_sequence(depth: usize) -> AbstractValue {
    let mut value = AbstractValue::Sequence(Vec::new());
    for _ in 0..depth {
        value = AbstractValue::Sequence(vec![value]);
    }
    value
}

#[test]
fn scenario_ron_to_json_and_back() {
    let ron = "(name: \"test\", value: 42, active: true)";
    let json = translate(ron, OutputType::Ron, OutputType::Json).unwrap();
    assert_eq!(json, "{\n  \"name\": \"test\",\n  \"value\": 42,\n  \"active\": true\n}");
    let back = translate(&json, OutputType::Json, OutputType::Ron).unwrap();
    assert_eq!(
        parse(&back, OutputType::Ron).unwrap(),
        parse(ron, OutputType::Ron).unwrap()
    );
}

#[test]
fn integer_stays_integer_through_json() {
    let ron = "(value: 42)";
    let json = translate(ron, OutputType::Ron, OutputType::Json).unwrap();
    let back = translate(&json, OutputType::Json, OutputType::Ron).unwrap();
    let expected = AbstractValue::Mapping(vec![(text("value"), whole(42))]);
    assert_eq!(parse(&back, OutputType::Ron).unwrap(), expected);
    assert_ne!(
        parse(&back, OutputType::Ron).unwrap(),
        AbstractValue::Mapping(vec![(text("value"), float(42.0))])
    );
    assert!(!back.contains("42.0"));
}

#[test]
fn float_stays_float_through_json() {
    let ron = "(value: 42.0)";
    let json = translate(ron, OutputType::Ron, OutputType::Json).unwrap();
    assert!(json.contains("42.0"));
    let back = translate(&json, OutputType::Json, OutputType::Ron).unwrap();
    assert_eq!(
        parse(&back, OutputType::Ron).unwrap(),
        AbstractValue::Mapping(vec![(text("value"), float(42.0))])
    );
}

#[test]
fn key_order_is_kept_in_json() {
    let json = translate("(b: 1, a: 2)", OutputType::Ron, OutputType::Json).unwrap();
    assert_eq!(json, "{\n  \"b\": 1,\n  \"a\": 2\n}");
    let b = json.find("\"b\"").unwrap();
    let a = json.find("\"a\"").unwrap();
    assert!(b < a);
}

#[test]
fn key_order_is_kept_in_yaml_and_ron() {
    let yaml = translate("(b: 1, a: 2)", OutputType::Ron, OutputType::Yaml).unwrap();
    assert_eq!(yaml, "b: 1\na: 2\n");
    let ron = translate("{\"b\": 1, \"a\": 2}", OutputType::Json, OutputType::Ron).unwrap();
    assert_eq!(ron, "{\n    \"b\": 1,\n    \"a\": 2,\n}");
}

#[test]
fn integer_key_is_refused_not_coerced() {
    for target in [OutputType::Json, OutputType::Toml, OutputType::Yaml] {
        let result = translate("{1: \"x\"}", OutputType::Ron, target);
        assert_eq!(
            result,
            Err(ConversionError::UnsupportedShapeError {
                format: target,
                defect: ShapeDefect::KeyNotText
            })
        );
    }
}

#[test]
fn integer_key_is_written_as_ron() {
    let value = AbstractValue::Mapping(vec![(whole(1), text("x"))]);
    assert_eq!(shape_defect(&value, OutputType::Ron), None);
    assert_eq!(serialize(&value, OutputType::Ron).unwrap(), "{\n    1: \"x\",\n}");
}

#[test]
fn key_inside_a_sequence_is_found() {
    let value = AbstractValue::Mapping(vec![(
        text("list"),
        AbstractValue::Sequence(vec![
            whole(1),
            AbstractValue::Optional(Some(Box::new(AbstractValue::Mapping(vec![(
                AbstractValue::Bool(true),
                whole(2),
            )])))),
        ]),
    )]);
    assert_eq!(shape_defect(&value, OutputType::Json), Some(ShapeDefect::KeyNotText));
    assert_eq!(shape_defect(&value, OutputType::Yaml), Some(ShapeDefect::KeyNotText));
    assert_eq!(shape_defect(&value, OutputType::Toml), Some(ShapeDefect::KeyNotText));
    assert_eq!(shape_defect(&value, OutputType::Ron), None);
}

#[test]
fn empty_sequence_and_empty_mapping_stay_apart() {
    let ron = "(items: [], config: {})";
    let json = translate(ron, OutputType::Ron, OutputType::Json).unwrap();
    assert_eq!(json, "{\n  \"items\": [],\n  \"config\": {}\n}");
    let back = translate(&json, OutputType::Json, OutputType::Ron).unwrap();
    let expected = AbstractValue::Mapping(vec![
        (text("items"), AbstractValue::Sequence(Vec::new())),
        (text("config"), AbstractValue::Mapping(Vec::new())),
    ]);
    assert_eq!(parse(&back, OutputType::Ron).unwrap(), expected);
    assert_ne!(
        AbstractValue::Sequence(Vec::new()),
        AbstractValue::Mapping(Vec::new())
    );
}

#[test]
fn toml_wants_a_mapping_at_the_root() {
    assert_eq!(shape_defect(&whole(3), OutputType::Toml), Some(ShapeDefect::RootNotTable));
    assert_eq!(
        translate("[1, 2]", OutputType::Ron, OutputType::Toml),
        Err(ConversionError::UnsupportedShapeError {
            format: OutputType::Toml,
            defect: ShapeDefect::RootNotTable
        })
    );
    assert_eq!(shape_defect(&whole(3), OutputType::Json), None);
    let wrapped = AbstractValue::Optional(Some(Box::new(AbstractValue::Mapping(vec![(
        text("a"),
        whole(1),
    )]))));
    assert_eq!(shape_defect(&wrapped, OutputType::Toml), None);
    assert_eq!(serialize(&wrapped, OutputType::Toml).unwrap(), "a = 1\n");
}

#[test]
fn toml_has_no_null() {
    assert_eq!(
        translate("(a: None)", OutputType::Ron, OutputType::Toml),
        Err(ConversionError::UnsupportedShapeError {
            format: OutputType::Toml,
            defect: ShapeDefect::Null
        })
    );
    assert_eq!(
        translate("(a: ())", OutputType::Ron, OutputType::Toml),
        Err(ConversionError::UnsupportedShapeError {
            format: OutputType::Toml,
            defect: ShapeDefect::Null
        })
    );
    assert_eq!(
        translate("(a: None, b: ())", OutputType::Ron, OutputType::Json).unwrap(),
        "{\n  \"a\": null,\n  \"b\": null\n}"
    );
}

#[test]
fn toml_integers_are_signed() {
    let wide = "(x: 18446744073709551615)";
    assert_eq!(
        translate(wide, OutputType::Ron, OutputType::Toml),
        Err(ConversionError::UnsupportedShapeError {
            format: OutputType::Toml,
            defect: ShapeDefect::IntegerRange
        })
    );
    assert_eq!(
        translate(wide, OutputType::Ron, OutputType::Json).unwrap(),
        "{\n  \"x\": 18446744073709551615\n}"
    );
    assert_eq!(
        translate("(x: 9223372036854775807)", OutputType::Ron, OutputType::Toml).unwrap(),
        "x = 9223372036854775807\n"
    );
}

#[test]
fn the_first_broken_rule_is_named() {
    let null_first = "(a: (), b: {1: 2})";
    assert_eq!(
        shape_defect(&parse(null_first, OutputType::Ron).unwrap(), OutputType::Toml),
        Some(ShapeDefect::Null)
    );
    let key_first = "(b: {1: 2}, a: ())";
    assert_eq!(
        shape_defect(&parse(key_first, OutputType::Ron).unwrap(), OutputType::Toml),
        Some(ShapeDefect::KeyNotText)
    );
    let root_first = "[(), {1: 2}]";
    assert_eq!(
        shape_defect(&parse(root_first, OutputType::Ron).unwrap(), OutputType::Toml),
        Some(ShapeDefect::RootNotTable)
    );
    let key_before_its_value = AbstractValue::Mapping(vec![(whole(1), AbstractValue::Unit)]);
    assert_eq!(
        shape_defect(&key_before_its_value, OutputType::Toml),
        Some(ShapeDefect::KeyNotText)
    );
}

#[test]
fn malformed_input_is_a_parse_error() {
    assert_eq!(
        translate("(a: 1", OutputType::Ron, OutputType::Json),
        Err(ConversionError::ParseError {
            format: OutputType::Ron,
            diagnostic: "1:5-1:6: Expected comma".to_string()
        })
    );
    for (source, input) in [
        (OutputType::Json, "{\"a\": 1,}"),
        (OutputType::Yaml, "a: [1\n"),
        (OutputType::Toml, "a = \n"),
    ] {
        match translate(input, source, OutputType::Ron) {
            Err(ConversionError::ParseError { format, diagnostic }) => {
                assert_eq!(format, source);
                assert!(!diagnostic.is_empty());
            }
            other => panic!("{:?}", other),
        }
    }
}

#[test]
fn a_writer_s_refusal_is_a_serialize_error() {
    let deep = nested_sequence(200);
    assert_eq!(shape_defect(&deep, OutputType::Ron), None);
    match serialize(&deep, OutputType::Ron) {
        Err(ConversionError::SerializeError { format, diagnostic }) => {
            assert_eq!(format, OutputType::Ron);
            assert!(!diagnostic.is_empty());
        }
        other => panic!("{:?}", other),
    }
    assert!(serialize(&nested_sequence(20), OutputType::Ron).is_ok());
}

#[test]
fn failures_say_what_happened() {
    let parse_error = ConversionError::ParseError {
        format: OutputType::Json,
        diagnostic: "expected value at line 1 column 1".to_string(),
    };
    assert_eq!(
        parse_error.to_string(),
        "Error: Failed to parse JSON: expected value at line 1 column 1"
    );
    let shape = ConversionError::UnsupportedShapeError {
        format: OutputType::Toml,
        defect: ShapeDefect::KeyNotText,
    };
    assert_eq!(
        shape.to_string(),
        "Error: Cannot express the document in TOML: a mapping has a key that is not a string"
    );
    let write_error = ConversionError::SerializeError {
        format: OutputType::Yaml,
        diagnostic: "too deep".to_string(),
    };
    assert_eq!(write_error.to_string(), "Error serializing to YAML: too deep");
    for (format, line) in [
        (OutputType::Json, "Error serializing to JSON: no"),
        (OutputType::Toml, "Error: Failed to serialize to TOML string: no"),
        (OutputType::Ron, "Error: Failed to serialize to RON string: no"),
    ] {
        let error = ConversionError::SerializeError { format, diagnostic: "no".to_string() };
        assert_eq!(error.to_string(), line);
    }
    for (format, line) in [
        (OutputType::Ron, "Error: Failed to parse RON: no"),
        (OutputType::Yaml, "Error: Failed to parse YAML: no"),
        (OutputType::Toml, "Error: Failed to parse TOML: no"),
    ] {
        let error = ConversionError::ParseError { format, diagnostic: "no".to_string() };
        assert_eq!(error.to_string(), line);
    }
    assert_eq!(ShapeDefect::RepeatedKey.reason(), "a mapping has the same key twice");
    assert_eq!(
        ShapeDefect::KeyNotText.reason(),
        "a mapping has a key that is not a string"
    );
    assert_eq!(ShapeDefect::RootNotTable.reason(), "the document is not a mapping at its root");
    assert_eq!(ShapeDefect::Null.reason(), "the document holds a unit or a None");
    assert_eq!(
        ShapeDefect::IntegerRange.reason(),
        "an integer is outside the signed 64-bit range"
    );
}

#[test]
fn readers_read_and_writers_write() {
    assert_eq!(parse("42", OutputType::Ron).unwrap(), whole(42));
    assert_eq!(parse("42", OutputType::Json).unwrap(), whole(42));
    assert_eq!(parse("42", OutputType::Yaml).unwrap(), whole(42));
    assert_eq!(
        parse("a = 42", OutputType::Toml).unwrap(),
        AbstractValue::Mapping(vec![(text("a"), whole(42))])
    );
    assert_eq!(serialize(&text("a"), OutputType::Ron).unwrap(), "\"a\"");
    assert_eq!(serialize(&text("a"), OutputType::Json).unwrap(), "\"a\"");
    assert_eq!(serialize(&text("a"), OutputType::Yaml).unwrap(), "a\n");
    let table = AbstractValue::Mapping(vec![(text("k"), text("a"))]);
    assert_eq!(serialize(&table, OutputType::Toml).unwrap(), "k = \"a\"\n");
}

#[test]
fn every_kind_of_value_is_carried_over() {
    let parsed = parse(
        "[(), true, -7, 18446744073709551615, 1.5, \"s\", 'c', [1], {2: 3}, Some(4), None, b\"ab\"]",
        OutputType::Ron,
    )
    .unwrap();
    let expected = AbstractValue::Sequence(vec![
        AbstractValue::Unit,
        AbstractValue::Bool(true),
        whole(-7),
        AbstractValue::Integer(Integer::Unsigned(18446744073709551615)),
        float(1.5),
        text("s"),
        text("c"),
        AbstractValue::Sequence(vec![whole(1)]),
        AbstractValue::Mapping(vec![(whole(2), whole(3))]),
        AbstractValue::Optional(Some(Box::new(whole(4)))),
        AbstractValue::Optional(None),
        AbstractValue::Sequence(vec![whole(97), whole(98)]),
    ]);
    assert_eq!(parsed, expected);
    let written = serialize(&expected, OutputType::Ron).unwrap();
    assert_eq!(parse(&written, OutputType::Ron).unwrap(), expected);
}

#[test]
fn parsed_integers_are_canonical() {
    match parse("[5, 18446744073709551615]", OutputType::Json).unwrap() {
        AbstractValue::Sequence(items) => {
            assert!(matches!(items[0], AbstractValue::Integer(Integer::Signed(5))));
            assert!(matches!(
                items[1],
                AbstractValue::Integer(Integer::Unsigned(18446744073709551615))
            ));
        }
        other => panic!("{:?}", other),
    }
}

#[test]
fn integers_have_one_form() {
    assert_eq!(Integer::new(5), Some(Integer::Signed(5)));
    assert_eq!(Integer::new(-1), Some(Integer::Signed(-1)));
    assert_eq!(Integer::new(i64::MIN as i128), Some(Integer::Signed(i64::MIN)));
    assert_eq!(Integer::new(i64::MAX as i128), Some(Integer::Signed(i64::MAX)));
    assert_eq!(Integer::new(i64::MAX as i128 + 1), Some(Integer::Unsigned(1u64 << 63)));
    assert_eq!(Integer::new(u64::MAX as i128), Some(Integer::Unsigned(u64::MAX)));
    assert_eq!(Integer::new(u64::MAX as i128 + 1), None);
    assert_eq!(Integer::new(i64::MIN as i128 - 1), None);
    assert!(matches!(Integer::Unsigned(5).normalized(), Integer::Signed(5)));
    assert!(matches!(Integer::Unsigned(u64::MAX).normalized(), Integer::Unsigned(u64::MAX)));
    assert!(matches!(Integer::Signed(-3).normalized(), Integer::Signed(-3)));
    assert!(matches!(Integer::new(5), Some(Integer::Signed(5))));
    assert!(matches!(Integer::new(1i128 << 63), Some(Integer::Unsigned(_))));
    assert_eq!(Integer::Unsigned(5), Integer::Signed(5));
    assert_ne!(Integer::Unsigned(5), Integer::Signed(-5));
    assert_eq!(Integer::Unsigned(7).value(), 7);
    assert_eq!(Integer::Signed(-7).value(), -7);
    assert!(Integer::Unsigned(7).fits_i64());
    assert!(!Integer::Unsigned(u64::MAX).fits_i64());
    assert!(Integer::Signed(i64::MIN).fits_i64());
}

#[test]
fn normalizing_keeps_the_document() {
    let raw = AbstractValue::Mapping(vec![(
        AbstractValue::Integer(Integer::Unsigned(1)),
        AbstractValue::Sequence(vec![AbstractValue::Optional(Some(Box::new(
            AbstractValue::Integer(Integer::Unsigned(2)),
        )))]),
    )]);
    let canonical = raw.normalized();
    assert_eq!(canonical, raw);
    match canonical {
        AbstractValue::Mapping(entries) => {
            assert!(matches!(entries[0].0, AbstractValue::Integer(Integer::Signed(1))));
        }
        other => panic!("{:?}", other),
    }
    assert_eq!(
        serialize(&AbstractValue::Integer(Integer::Unsigned(5)), OutputType::Json).unwrap(),
        "5"
    );
}

#[test]
fn sameness_ignores_the_order_of_entries_only() {
    let one = AbstractValue::Mapping(vec![(text("a"), whole(1)), (text("b"), whole(2))]);
    let other = AbstractValue::Mapping(vec![(text("b"), whole(2)), (text("a"), whole(1))]);
    assert!(one.same_as(&other));
    assert!(other.same_as(&one));
    assert_eq!(one, other);
    let changed = AbstractValue::Mapping(vec![(text("b"), whole(2)), (text("a"), whole(3))]);
    assert!(!one.same_as(&changed));
    let shorter = AbstractValue::Mapping(vec![(text("a"), whole(1))]);
    assert!(!one.same_as(&shorter));
    assert!(!shorter.same_as(&one));
    let list = AbstractValue::Sequence(vec![whole(1), whole(2)]);
    let reversed = AbstractValue::Sequence(vec![whole(2), whole(1)]);
    assert!(!list.same_as(&reversed));
    assert!(list.same_as(&AbstractValue::Sequence(vec![whole(1), whole(2)])));
}

#[test]
fn sameness_tells_the_kinds_apart() {
    assert!(whole(42).same_as(&whole(42)));
    assert!(!whole(42).same_as(&float(42.0)));
    assert!(float(1.5).same_as(&float(1.5)));
    assert!(!float(1.5).same_as(&float(2.5)));
    assert!(!float(0.0).same_as(&float(-0.0)));
    assert!(float(f64::NAN).same_as(&float(f64::NAN)));
    assert!(text("a").same_as(&text("a")));
    assert!(!text("a").same_as(&text("b")));
    assert!(!AbstractValue::Unit.same_as(&AbstractValue::Optional(None)));
    assert!(AbstractValue::Optional(None).same_as(&AbstractValue::Optional(None)));
    assert!(!AbstractValue::Optional(Some(Box::new(whole(1)))).same_as(&whole(1)));
    assert!(AbstractValue::Integer(Integer::Unsigned(5)).same_as(&whole(5)));
}

#[test]
fn sameness_is_an_equivalence_on_samples() {
    let a = AbstractValue::Mapping(vec![(text("x"), whole(1)), (text("y"), float(2.0))]);
    let b = AbstractValue::Mapping(vec![(text("y"), float(2.0)), (text("x"), whole(1))]);
    let c = AbstractValue::Mapping(vec![
        (text("y"), float(2.0)),
        (text("x"), AbstractValue::Integer(Integer::Unsigned(1))),
    ]);
    assert!(a.same_as(&a));
    assert!(a.same_as(&b) && b.same_as(&a));
    assert!(b.same_as(&c) && a.same_as(&c));
}

#[test]
fn toml_round_trip_moves_tables_after_values() {
    let ron = "(table: (k: 1), plain: 2)";
    let toml = translate(ron, OutputType::Ron, OutputType::Toml).unwrap();
    assert_eq!(toml, "plain = 2\n\n[table]\nk = 1\n");
    let back = translate(&toml, OutputType::Toml, OutputType::Ron).unwrap();
    assert_eq!(
        parse(&back, OutputType::Ron).unwrap(),
        parse(ron, OutputType::Ron).unwrap()
    );
}

#[test]
fn texts_of_one_document_convert_alike() {
    let spaced = "{ \"a\" : [ 1 , 2 ] }";
    let tight = "{\"a\":[1,2]}";
    for target in [OutputType::Ron, OutputType::Yaml, OutputType::Toml, OutputType::Json] {
        assert_eq!(
            translate(spaced, OutputType::Json, target),
            translate(tight, OutputType::Json, target)
        );
    }
}

#[test]
fn round_trip_between_every_pair_of_formats() {
    let ron = "(name: \"n\", list: [1, 2.5, true], inner: (k: \"v\"))";
    let document = parse(ron, OutputType::Ron).unwrap();
    let formats = [OutputType::Ron, OutputType::Json, OutputType::Yaml, OutputType::Toml];
    for first in formats {
        let origin = serialize(&document, first).unwrap();
        for second in formats {
            let there = translate(&origin, first, second).unwrap();
            let back = translate(&there, second, first).unwrap();
            assert_eq!(parse(&back, first).unwrap(), document);
        }
    }
}

#[test]
fn type_names_are_read_in_any_case() {
    assert_eq!(OutputType::from_str("json"), Ok(OutputType::Json));
    assert_eq!(OutputType::from_str("JSON"), Ok(OutputType::Json));
    assert_eq!(OutputType::from_str("yaml"), Ok(OutputType::Yaml));
    assert_eq!(OutputType::from_str("Yml"), Ok(OutputType::Yaml));
    assert_eq!(OutputType::from_str("toml"), Ok(OutputType::Toml));
    assert_eq!(OutputType::from_str("RoN"), Ok(OutputType::Ron));
    assert_eq!(
        OutputType::from_str("XML"),
        Err("Invalid output type: XML. Supported types are: json, yaml, yml, toml, ron"
            .to_string())
    );
    assert_eq!(
        OutputType::from_str(""),
        Err("Invalid output type: . Supported types are: json, yaml, yml, toml, ron".to_string())
    );
    assert_eq!(OutputType::from_lowercase("yml", "YML"), Ok(OutputType::Yaml));
    assert_eq!(
        OutputType::from_lowercase("JSON", "JSON"),
        Err("Invalid output type: JSON. Supported types are: json, yaml, yml, toml, ron"
            .to_string())
    );
}

#[test]
fn formats_have_names_and_extensions() {
    assert_eq!(OutputType::Json.extension(), "json");
    assert_eq!(OutputType::Yaml.extension(), "yaml");
    assert_eq!(OutputType::Toml.extension(), "toml");
    assert_eq!(OutputType::Ron.extension(), "ron");
    assert_eq!(OutputType::Json.to_string(), "json");
    assert_eq!(OutputType::Yaml.to_string(), "yaml");
    assert_eq!(OutputType::Toml.to_string(), "toml");
    assert_eq!(OutputType::Ron.to_string(), "ron");
    assert_eq!(OutputType::Json.title(), "JSON");
    assert_eq!(OutputType::Yaml.title(), "YAML");
    assert_eq!(OutputType::Toml.title(), "TOML");
    assert_eq!(OutputType::Ron.title(), "RON");
}

#[test]
fn a_request_names_its_conversion() {
    assert_eq!(default_output_type("ron"), OutputType::Json);
    assert_eq!(default_output_type("json"), OutputType::Ron);
    assert_eq!(default_output_type(""), OutputType::Ron);
    assert_eq!(source_format("json"), Some(OutputType::Json));
    assert_eq!(source_format("yaml"), Some(OutputType::Yaml));
    assert_eq!(source_format("yml"), Some(OutputType::Yaml));
    assert_eq!(source_format("toml"), Some(OutputType::Toml));
    assert_eq!(source_format("ron"), None);
    assert_eq!(source_format("JSON"), None);
    assert_eq!(
        plan_conversion("ron", None),
        Ok(Conversion { source: OutputType::Ron, target: OutputType::Json })
    );
    assert_eq!(
        plan_conversion("yml", None),
        Ok(Conversion { source: OutputType::Yaml, target: OutputType::Ron })
    );
    assert_eq!(
        plan_conversion("ron", Some(OutputType::Toml)),
        Ok(Conversion { source: OutputType::Ron, target: OutputType::Toml })
    );
    assert_eq!(
        plan_conversion("txt", Some(OutputType::Yaml)),
        Ok(Conversion { source: OutputType::Ron, target: OutputType::Yaml })
    );
    assert_eq!(
        plan_conversion("toml", Some(OutputType::Ron)),
        Ok(Conversion { source: OutputType::Toml, target: OutputType::Ron })
    );
    assert_eq!(plan_conversion("ron", Some(OutputType::Ron)), Err(PlanError::RonToRon));
    assert_eq!(plan_conversion("txt", None), Err(PlanError::UnsupportedInput));
    assert_eq!(plan_conversion("", Some(OutputType::Ron)), Err(PlanError::UnsupportedInput));
    assert_eq!(
        PlanError::RonToRon.to_string(),
        "Error: Cannot convert a RON file to RON. Please specify a different output type."
    );
    assert_eq!(
        PlanError::UnsupportedInput.to_string(),
        "Error: Unsupported input file type for converting to RON. Supported types are: json, yaml, yml, toml. File extension must be one of these."
    );
}

#[test]
fn a_char_key_and_a_text_key_of_one_spelling_are_refused() {
    let ron = "{'a': 1, \"a\": 2}";
    let parsed = parse(ron, OutputType::Ron).unwrap();
    match &parsed {
        AbstractValue::Mapping(entries) => assert_eq!(entries.len(), 2),
        other => panic!("{:?}", other),
    }
    for target in [OutputType::Json, OutputType::Yaml, OutputType::Toml, OutputType::Ron] {
        assert_eq!(shape_defect(&parsed, target), Some(ShapeDefect::RepeatedKey));
        assert_eq!(
            translate(ron, OutputType::Ron, target),
            Err(ConversionError::UnsupportedShapeError {
                format: target,
                defect: ShapeDefect::RepeatedKey
            })
        );
    }
}

#[test]
fn integer_keys_of_one_number_are_refused() {
    let hand_built = AbstractValue::Mapping(vec![
        (AbstractValue::Integer(Integer::Signed(5)), text("x")),
        (AbstractValue::Integer(Integer::Unsigned(5)), text("y")),
    ]);
    assert_eq!(shape_defect(&hand_built, OutputType::Ron), Some(ShapeDefect::RepeatedKey));
    assert_eq!(
        serialize(&hand_built, OutputType::Ron),
        Err(ConversionError::UnsupportedShapeError {
            format: OutputType::Ron,
            defect: ShapeDefect::RepeatedKey
        })
    );
    let yaml = "1: x\n1.0: y\n";
    assert!(translate(yaml, OutputType::Yaml, OutputType::Ron).is_ok());
}

#[test]
fn a_hand_built_repeated_key_is_refused_at_any_depth() {
    let repeated = AbstractValue::Mapping(vec![(text("k"), whole(1)), (text("k"), whole(2))]);
    for target in [OutputType::Json, OutputType::Yaml, OutputType::Toml, OutputType::Ron] {
        assert_eq!(shape_defect(&repeated, target), Some(ShapeDefect::RepeatedKey));
    }
    let inside = AbstractValue::Mapping(vec![(
        text("outer"),
        AbstractValue::Sequence(vec![AbstractValue::Optional(Some(Box::new(
            AbstractValue::Mapping(vec![
                (text("k"), whole(1)),
                (text("j"), whole(2)),
                (text("k"), whole(3)),
            ]),
        )))]),
    )]);
    assert_eq!(shape_defect(&inside, OutputType::Json), Some(ShapeDefect::RepeatedKey));
    assert_eq!(
        serialize(&inside, OutputType::Json),
        Err(ConversionError::UnsupportedShapeError {
            format: OutputType::Json,
            defect: ShapeDefect::RepeatedKey
        })
    );
    let inside_a_key = AbstractValue::Mapping(vec![(
        AbstractValue::Mapping(vec![(whole(1), whole(1)), (whole(1), whole(2))]),
        whole(0),
    )]);
    assert_eq!(shape_defect(&inside_a_key, OutputType::Ron), Some(ShapeDefect::RepeatedKey));
    let keys_apart_by_order = AbstractValue::Mapping(vec![
        (AbstractValue::Sequence(vec![whole(1), whole(2)]), whole(0)),
        (AbstractValue::Sequence(vec![whole(2), whole(1)]), whole(0)),
    ]);
    assert_eq!(shape_defect(&keys_apart_by_order, OutputType::Ron), None);
    assert!(serialize(&keys_apart_by_order, OutputType::Ron).is_ok());
}

#[test]
fn every_entry_with_its_own_key_is_written() {
    let value = AbstractValue::Mapping(vec![
        (text("a"), whole(1)),
        (text("b"), whole(2)),
        (text("A"), whole(3)),
    ]);
    assert_eq!(
        serialize(&value, OutputType::Json).unwrap(),
        "{\n  \"a\": 1,\n  \"b\": 2,\n  \"A\": 3\n}"
    );
    let read = parse(&serialize(&value, OutputType::Json).unwrap(), OutputType::Json).unwrap();
    match read {
        AbstractValue::Mapping(entries) => assert_eq!(entries.len(), 3),
        other => panic!("{:?}", other),
    }
}

#[test]
fn the_repeated_key_comes_before_what_the_entry_holds() {
    let value = AbstractValue::Mapping(vec![
        (whole(1), whole(0)),
        (whole(1), AbstractValue::Unit),
    ]);
    assert_eq!(shape_defect(&value, OutputType::Json), Some(ShapeDefect::KeyNotText));
    assert_eq!(shape_defect(&value, OutputType::Ron), Some(ShapeDefect::RepeatedKey));
    let second = AbstractValue::Mapping(vec![
        (text("k"), whole(0)),
        (text("k"), AbstractValue::Unit),
    ]);
    assert_eq!(shape_defect(&second, OutputType::Toml), Some(ShapeDefect::RepeatedKey));
}

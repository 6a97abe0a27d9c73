use watchwoman::json::{
    end_line, finish_reading, json_to_value, parse_json, response_text, stdin_pdu, value_to_serde,
};
use watchwoman::{CliError, Members, Value};

fn text(s: &str) -> Value {
    Value::String(s.to_string())
}

fn object(entries: Vec<(&str, Value)>) -> Value {
    let mut m = Members::new();
    for (k, v) in entries {
        m.insert(k.to_string(), v);
    }
    Value::Object(m)
}

fn read(s: &str) -> Value {
    parse_json(s, "test").unwrap()
}

#[test]
fn every_kind_of_document_becomes_a_value() {
    assert_eq!(read("null"), Value::Null);
    assert_eq!(read(" true "), Value::Bool(true));
    assert_eq!(read("-12"), Value::Int(-12));
    assert_eq!(read("9223372036854775807"), Value::Int(i64::MAX));
    assert_eq!(read("-9223372036854775808"), Value::Int(i64::MIN));
    assert_eq!(read("1.5"), Value::Real("1.5".to_string()));
    assert_eq!(read("1.0"), Value::Real("1".to_string()));
    assert_eq!(read("\"x\\ny\""), text("x\ny"));
    assert_eq!(read("[1, \"a\", []]"), Value::Array(vec![
        Value::Int(1),
        text("a"),
        Value::Array(vec![]),
    ]));
    assert_eq!(
        read("{\"a\": {\"b\": null}}"),
        object(vec![("a", object(vec![("b", Value::Null)]))])
    );
}

#[test]
fn integers_beyond_the_range_become_real() {
    assert_eq!(read("18446744073709551615"), Value::Real("18446744073709552000".to_string()));
    assert_eq!(read("9223372036854775808"), Value::Real(9223372036854775808.0f64.to_string()));
    let printed = serde_json::to_string(&18446744073709552000.0f64).unwrap();
    assert_eq!(response_text(&read("18446744073709551615"), true), format!("{printed}\n"));
}

#[test]
fn members_of_a_document_come_by_ascending_keys() {
    let v = read("{\"b\": 1, \"a\": 2, \"B\": 3, \"é\": 4}");
    let m = v.as_object().unwrap();
    let keys: Vec<&str> = (0..m.len()).map(|i| m.get_index(i).unwrap().0.as_str()).collect();
    assert_eq!(keys, vec!["B", "a", "b", "é"]);
    assert_eq!(read("{\"a\": 1, \"a\": 2}"), object(vec![("a", Value::Int(2))]));
}

#[test]
fn bad_json_is_reported_with_its_context() {
    match parse_json("{", "query") {
        Err(CliError::Json { context, cause }) => {
            assert_eq!(context, "parsing query JSON");
            assert_eq!(cause, "EOF while parsing an object at line 1 column 1");
        }
        other => panic!("{other:?}"),
    }
    let e = parse_json("", "raw PDU").unwrap_err();
    assert_eq!(e.message(), "parsing raw PDU JSON");
}

#[test]
fn a_reading_becomes_a_value_or_a_failure() {
    let doc: serde_json::Value = serde_json::from_str("[true]").unwrap();
    assert_eq!(finish_reading(Ok(doc), "c").unwrap(), Value::Array(vec![Value::Bool(true)]));
    match finish_reading(Err("why".to_string()), "what") {
        Err(CliError::Json { context, cause }) => assert_eq!((context.as_str(), cause.as_str()), ("what", "why")),
        other => panic!("{other:?}"),
    }
}

#[test]
fn stdin_must_hold_a_pdu() {
    assert!(matches!(stdin_pdu(""), Err(CliError::EmptyStdin)));
    assert!(matches!(stdin_pdu(" \n\t\u{2003}\u{85}"), Err(CliError::EmptyStdin)));
    assert_eq!(
        stdin_pdu("").unwrap_err().message(),
        "`-j` expected a JSON PDU on stdin"
    );
    assert_eq!(stdin_pdu("nope").unwrap_err().message(), "parsing stdin PDU");
    assert_eq!(
        stdin_pdu("\u{a0}[\"get-pid\"]\n\u{3000}").unwrap(),
        Value::Array(vec![text("get-pid")])
    );
}

#[test]
fn white_space_is_what_std_trims() {
    for n in 0u32..0x11_0000 {
        if let Some(c) = char::from_u32(n) {
            let expected = n == 0x20
                || (0x9..=0xd).contains(&n)
                || n == 0x85
                || n == 0xa0
                || n == 0x1680
                || (0x2000..=0x200a).contains(&n)
                || n == 0x2028
                || n == 0x2029
                || n == 0x202f
                || n == 0x205f
                || n == 0x3000;
            assert_eq!(c.is_whitespace(), expected);
        }
    }
}

#[test]
fn responses_are_printed_compact_or_pretty() {
    let v = object(vec![("pid", Value::Int(7)), ("a", Value::Array(vec![text("x")]))]);
    assert_eq!(response_text(&v, true), "{\"a\":[\"x\"],\"pid\":7}\n");
    assert_eq!(
        response_text(&v, false),
        "{\n  \"a\": [\n    \"x\"\n  ],\n  \"pid\": 7\n}\n"
    );
    assert_eq!(response_text(&Value::Null, true), "null\n");
    assert_eq!(end_line("x".to_string()), "x\n");
}

#[test]
fn bytes_are_decoded() {
    assert_eq!(response_text(&Value::Bytes(b"ok".to_vec()), true), "\"ok\"\n");
    assert_eq!(response_text(&Value::Bytes(vec![0x61, 0xff, 0x62]), true), "\"a\u{fffd}b\"\n");
    assert_eq!(response_text(&Value::Bytes("é".as_bytes().to_vec()), true), "\"é\"\n");
}

#[test]
fn only_finite_numbers_are_printed() {
    assert_eq!(response_text(&Value::Real("2.5".to_string()), true), "2.5\n");
    assert_eq!(response_text(&Value::Real("-0".to_string()), true), "-0.0\n");
    assert_eq!(response_text(&Value::Real("NaN".to_string()), true), "null\n");
    assert_eq!(response_text(&Value::Real("inf".to_string()), true), "null\n");
    assert_eq!(response_text(&Value::Int(i64::MIN), true), "-9223372036854775808\n");
}

#[test]
fn a_table_is_printed_as_its_objects() {
    let table = Value::Template {
        keys: vec!["name".to_string(), "size".to_string()],
        rows: vec![
            vec![text("a"), Value::Int(1)],
            vec![text("b")],
            vec![text("c"), Value::Int(3), Value::Int(4)],
        ],
    };
    assert_eq!(
        response_text(&table, true),
        "[{\"name\":\"a\",\"size\":1},{\"name\":\"b\"},{\"name\":\"c\",\"size\":3}]\n"
    );
    let list = Value::Array(vec![
        object(vec![("name", text("a")), ("size", Value::Int(1))]),
        object(vec![("name", text("b"))]),
        object(vec![("name", text("c")), ("size", Value::Int(3))]),
    ]);
    assert_eq!(value_to_serde(&table), value_to_serde(&list));
}

#[test]
fn a_repeated_key_of_a_table_keeps_its_last_value() {
    let table = Value::Template {
        keys: vec!["k".to_string(), "k".to_string()],
        rows: vec![vec![Value::Int(1), Value::Int(2)]],
    };
    assert_eq!(response_text(&table, true), "[{\"k\":2}]\n");
}

#[test]
fn documents_survive_the_way_through_values() {
    for s in [
        "null",
        "[true,false,-1,0,1,1.25,-0.0,1e300,5e-324]",
        "{\"a\":{\"b\":[{}]},\"c\":\"x\"}",
        "\"\u{1f600}\"",
    ] {
        let doc: serde_json::Value = serde_json::from_str(s).unwrap();
        let back = value_to_serde(&json_to_value(doc.clone()));
        assert_eq!(back, doc);
    }
}

#[test]
fn plain_values_survive_the_way_through_documents() {
    let v = object(vec![
        ("a", Value::Array(vec![Value::Null, Value::Bool(true), Value::Int(-5)])),
        ("b", Value::Real("0.1".to_string())),
        ("c", object(vec![("d", text("e"))])),
    ]);
    assert_eq!(json_to_value(value_to_serde(&v)), v);
}

#[test]
fn members_survive_in_any_order() {
    let v = object(vec![
        ("z", Value::Real("1.0".to_string())),
        ("a", object(vec![("y", Value::Int(1)), ("b", Value::Null)])),
        ("m", Value::Array(vec![object(vec![("q", text("1")), ("c", Value::Real("0.5".to_string()))])])),
    ]);
    let w = json_to_value(value_to_serde(&v));
    let expected = object(vec![
        ("z", Value::Real("1".to_string())),
        ("a", object(vec![("y", Value::Int(1)), ("b", Value::Null)])),
        ("m", Value::Array(vec![object(vec![("q", text("1")), ("c", Value::Real("0.5".to_string()))])])),
    ]);
    assert_eq!(w, expected);
    let m = w.as_object().unwrap();
    let keys: Vec<&str> = (0..m.len()).map(|i| m.get_index(i).unwrap().0.as_str()).collect();
    assert_eq!(keys, vec!["a", "m", "z"]);
}

#[test]
fn a_second_pass_changes_nothing() {
    for v in [
        Value::Bytes(vec![0x61, 0xff]),
        Value::Real("NaN".to_string()),
        Value::Real("1.50".to_string()),
        Value::Real("1e300".to_string()),
        object(vec![("z", Value::Int(1)), ("a", Value::Bytes(vec![0x62]))]),
        Value::Template {
            keys: vec!["k".to_string(), "a".to_string(), "k".to_string()],
            rows: vec![vec![Value::Int(1), Value::Real("-0".to_string()), Value::Real("inf".to_string())]],
        },
    ] {
        let doc = value_to_serde(&v);
        assert_eq!(value_to_serde(&json_to_value(doc.clone())), doc);
    }
}

#[test]
fn the_decimal_text_of_a_float_denotes_it() {
    for f in [0.0f64, -0.0, 0.1, 1.0 / 3.0, 5e-324, f64::MIN_POSITIVE, f64::MAX, f64::MIN, 1e21, 123456789.125] {
        let doc = serde_json::Value::from(f);
        assert_eq!(json_to_value(doc.clone()), Value::Real(f.to_string()));
        let back = value_to_serde(&Value::Real(f.to_string()));
        assert_eq!(back.as_f64().unwrap().to_bits(), f.to_bits());
    }
}

#[test]
fn numbers_are_read_in_their_kind() {
    assert_eq!(read("-0"), Value::Real("-0".to_string()));
    assert_eq!(read("0"), Value::Int(0));
    assert_eq!(read("-9223372036854775809"), Value::Real((-9223372036854775809.0f64).to_string()));
    assert!(parse_json("1e999", "test").is_err());
    assert!(parse_json("-1e999", "test").is_err());
}

#[test]
fn compact_json_is_one_line() {
    let v = object(vec![("a\nb", text("c\nd\r\u{2028}")), ("e", Value::Array(vec![Value::Null, Value::Int(1)]))]);
    let line = response_text(&v, true);
    assert!(line.ends_with('\n'));
    assert_eq!(line.matches('\n').count(), 1);
    assert!(response_text(&v, false).matches('\n').count() > 1);
}

#[test]
fn objects_keep_all_their_members() {
    let v = object(vec![("z", Value::Int(1)), ("a", Value::Int(2)), ("m", Value::Int(3))]);
    let doc = value_to_serde(&v);
    let members = doc.as_object().unwrap();
    assert_eq!(members.len(), 3);
    assert_eq!(members.get("z").and_then(|x| x.as_i64()), Some(1));
    assert_eq!(members.get("a").and_then(|x| x.as_i64()), Some(2));
    assert_eq!(members.get("m").and_then(|x| x.as_i64()), Some(3));
    assert!(members.get("x").is_none());
}

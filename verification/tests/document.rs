use mindwtr_store::document::{encode_pretty, find_value_start, parse_relaxed, sanitize, Document};
use mindwtr_store::error::StoreError;

#[test]
fn sanitize_strips_mark_padding_and_trailing_space() {
    assert_eq!(sanitize("\u{feff}{\"a\":1}\n\0\0\0"), "{\"a\":1}");
    assert_eq!(sanitize("{\"a\":1}"), "{\"a\":1}");
    assert_eq!(sanitize("  {\"a\":1} \t\r\n"), "  {\"a\":1}");
    assert_eq!(sanitize("\u{feff}"), "");
    assert_eq!(sanitize("\0\0"), "");
    assert_eq!(sanitize(""), "");
    assert_eq!(sanitize(" \n "), "");
}

#[test]
fn sanitize_takes_one_mark_and_works_in_order() {
    // one mark only
    assert_eq!(sanitize("\u{feff}\u{feff}x"), "\u{feff}x");
    // a mark that does not lead stays
    assert_eq!(sanitize("x\u{feff}y"), "x\u{feff}y");
    // padding is stripped before whitespace: padding under whitespace stays
    assert_eq!(sanitize("x\0\0 \n"), "x\0\0");
    assert_eq!(sanitize("x \n\0\0"), "x");
    // inner NUL and inner whitespace stay
    assert_eq!(sanitize("a\0b c\0"), "a\0b c");
}

#[test]
fn value_start_is_the_first_opener() {
    assert_eq!(find_value_start("{}"), Some(0));
    assert_eq!(find_value_start("xx[1]"), Some(2));
    assert_eq!(find_value_start("é é{"), Some(3));
    assert_eq!(find_value_start("] } {"), Some(4));
    assert_eq!(find_value_start("no opener"), None);
    assert_eq!(find_value_start(""), None);
}

#[test]
fn empty_text_is_the_empty_object() {
    for raw in ["", "   ", "\n", "\u{feff}", "\0\0\0", "\u{feff} \n\0"] {
        let doc = parse_relaxed(raw).unwrap();
        assert_eq!(doc.as_str(), "{}", "{:?}", raw);
        assert_eq!(doc, Document::empty_object());
    }
}

#[test]
fn strict_text_is_read_as_it_is() {
    let doc = parse_relaxed(" { \"tasks\" : [ 1 , 2 ] , \"projects\" : [ ] , \"settings\" : { \"x\" : null } } ").unwrap();
    assert_eq!(doc.as_str(), "{\"projects\":[],\"settings\":{\"x\":null},\"tasks\":[1,2]}");
    assert_eq!(parse_relaxed("[1, \"two\", 3.5, true]").unwrap().as_str(), "[1,\"two\",3.5,true]");
    assert_eq!(parse_relaxed("42").unwrap().as_str(), "42");
    assert_eq!(parse_relaxed("\"s\"").unwrap().as_str(), "\"s\"");
}

#[test]
fn leading_object_is_read_and_the_rest_dropped() {
    let doc = parse_relaxed("{\"tasks\": [], \"projects\": [], \"settings\": {}}ts\": [\"old\"]}").unwrap();
    assert_eq!(doc.as_str(), "{\"projects\":[],\"settings\":{},\"tasks\":[]}");
    assert_eq!(doc, Document::skeleton());
    assert_eq!(parse_relaxed("{\"a\":1}{\"a\":2}").unwrap().as_str(), "{\"a\":1}");
    assert_eq!(parse_relaxed("{\"a\":1}\0garbage\0").unwrap().as_str(), "{\"a\":1}");
    assert_eq!(parse_relaxed("[1,2] trailing").unwrap().as_str(), "[1,2]");
}

#[test]
fn reading_starts_at_the_first_opener() {
    assert_eq!(parse_relaxed("junk{\"a\":1}").unwrap().as_str(), "{\"a\":1}");
    assert_eq!(parse_relaxed("\u{feff}xx [true] yy\0\0").unwrap().as_str(), "[true]");
}

#[test]
fn text_that_is_no_document_is_a_decode_error() {
    for raw in ["not json", "{\"a\":", "x{", "}{", "[1,2", "{\"a\" 1}", "12 34"] {
        match parse_relaxed(raw) {
            Err(StoreError::Decode(message)) => {
                assert!(!message.is_empty());
                assert_ne!(message, raw);
            }
            other => panic!("{:?} gave {:?}", raw, other),
        }
    }
}

#[test]
fn decode_error_describes_the_strict_failure() {
    match parse_relaxed("x{") {
        Err(StoreError::Decode(message)) => assert_eq!(message, "expected value at line 1 column 1"),
        other => panic!("{:?}", other),
    }
}

#[test]
fn pretty_text_is_indented() {
    let doc = parse_relaxed("{\"b\":[1,2],\"a\":{\"x\":\"y\"}}").unwrap();
    assert_eq!(
        encode_pretty(&doc).unwrap(),
        "{\n  \"a\": {\n    \"x\": \"y\"\n  },\n  \"b\": [\n    1,\n    2\n  ]\n}"
    );
    assert_eq!(encode_pretty(&Document::empty_object()).unwrap(), "{}");
    assert_eq!(
        encode_pretty(&Document::skeleton()).unwrap(),
        "{\n  \"projects\": [],\n  \"settings\": {},\n  \"tasks\": []\n}"
    );
}

#[test]
fn documents_round_trip_through_pretty_text() {
    for raw in [
        "{}",
        "[]",
        "null",
        "{\"tasks\":[{\"id\":\"1\",\"title\":\"Buy \\\"milk\\\"\",\"done\":false,\"tags\":[\"a\",\"b\"]}],\"projects\":[],\"settings\":{\"theme\":\"dark\",\"n\":-3,\"ratio\":0.25}}",
        "[1,2.5,-7,1e21,\"\\u00e9\\n\",{\"k\":[null,true]}]",
        "\"  padded  \"",
    ] {
        let doc = parse_relaxed(raw).unwrap();
        let pretty = encode_pretty(&doc).unwrap();
        assert_eq!(parse_relaxed(&pretty).unwrap(), doc, "{:?}", raw);
        assert_eq!(doc.clone(), doc);
    }
}

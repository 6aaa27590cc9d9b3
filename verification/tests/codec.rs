use worker_bridge::encode::encode_value;
use worker_bridge::parse::{codec_round_trip, decode_value, number_from_text};
use worker_bridge::value::Json;

fn bv(s: &str) -> Vec<u8> {
    s.as_bytes().to_vec()
}

fn obj(pairs: Vec<(&str, Json)>) -> Json {
    Json::Obj(pairs.into_iter().map(|(k, v)| (bv(k), v)).collect())
}

#[test]
fn encode_atoms() {
    assert_eq!(encode_value(&Json::Null), bv("null"));
    assert_eq!(encode_value(&Json::Bool(true)), bv("true"));
    assert_eq!(encode_value(&Json::Bool(false)), bv("false"));
    assert_eq!(encode_value(&Json::Int(0)), bv("0"));
    assert_eq!(encode_value(&Json::Int(-42)), bv("-42"));
    assert_eq!(encode_value(&Json::Int(i64::MAX)), bv("9223372036854775807"));
    assert_eq!(encode_value(&Json::Int(i64::MIN)), bv("-9223372036854775808"));
    assert_eq!(encode_value(&Json::Num(bv("3.14"))), bv("3.14"));
}

#[test]
fn encode_string_escapes() {
    let v = Json::Str(bv("a\"b\\c\nd\te\u{1}"));
    assert_eq!(encode_value(&v), bv("\"a\\\"b\\\\c\\nd\\te\\u0001\""));
    let plain = Json::Str("héllo".to_string().into_bytes());
    assert_eq!(encode_value(&plain), "\"héllo\"".to_string().into_bytes());
}

#[test]
fn encode_containers() {
    let v = obj(vec![
        ("a", Json::Arr(vec![Json::Int(1), Json::Int(2)])),
        ("b", Json::Str(bv("x"))),
    ]);
    assert_eq!(encode_value(&v), bv("{\"a\":[1,2],\"b\":\"x\"}"));
    assert_eq!(encode_value(&Json::Arr(vec![])), bv("[]"));
    assert_eq!(encode_value(&Json::Obj(vec![])), bv("{}"));
}

#[test]
fn round_trip_samples() {
    let samples = vec![
        Json::Null,
        Json::Bool(true),
        Json::Int(-7),
        Json::Int(i64::MIN),
        Json::Num(bv("2.5e10")),
        Json::Str(bv("line\nbreak \"quoted\" \\slash")),
        Json::Arr(vec![Json::Null, Json::Bool(false), Json::Str(bv(""))]),
        obj(vec![
            ("k", Json::Arr(vec![obj(vec![("n", Json::Num(bv("-0.5")))])])),
            ("m", Json::Null),
        ]),
    ];
    for v in samples {
        let bytes = encode_value(&v);
        assert_eq!(decode_value(&bytes), Ok(v));
    }
}

#[test]
fn round_trip_function() {
    let v = obj(vec![("x", Json::Int(1)), ("y", Json::Str(bv("z")))]);
    let w = codec_round_trip(&v);
    assert_eq!(w, v);
}

#[test]
fn decode_accepts_whitespace() {
    let text = bv(" {\u{9}\"a\" :\n[ 1 ,\r 2 ] } ");
    let v = decode_value(&text).unwrap();
    assert_eq!(v, obj(vec![("a", Json::Arr(vec![Json::Int(1), Json::Int(2)]))]));
}

#[test]
fn decode_escape_forms() {
    assert_eq!(decode_value(&bv("\"\\u0041\"")), Ok(Json::Str(bv("A"))));
    assert_eq!(decode_value(&bv("\"\\/\"")), Ok(Json::Str(bv("/"))));
    // a surrogate pair decodes to one four-byte character
    assert_eq!(
        decode_value(&bv("\"\\ud83d\\ude00\"")),
        Ok(Json::Str(vec![0xF0, 0x9F, 0x98, 0x80]))
    );
    // a lone surrogate is not a string
    assert!(decode_value(&bv("\"\\ud83d\"")).is_err());
}

#[test]
fn decode_number_forms() {
    assert_eq!(decode_value(&bv("123")), Ok(Json::Int(123)));
    assert_eq!(decode_value(&bv("-0")), Ok(Json::Int(0)));
    assert_eq!(decode_value(&bv("3.14")), Ok(Json::Num(bv("3.14"))));
    assert_eq!(decode_value(&bv("1e5")), Ok(Json::Num(bv("1e5"))));
    assert_eq!(
        decode_value(&bv("9223372036854775807")),
        Ok(Json::Int(i64::MAX))
    );
    assert_eq!(
        decode_value(&bv("-9223372036854775808")),
        Ok(Json::Int(i64::MIN))
    );
    // one past the integer range stays literal text
    assert_eq!(
        decode_value(&bv("9223372036854775808")),
        Ok(Json::Num(bv("9223372036854775808")))
    );
}

#[test]
fn decode_rejects_malformed() {
    for bad in [
        "tru", "nul", "{", "[1,]", "{\"a\":}", "01", "1.2.3", "--1", "\"unterminated",
        "[1 2]", "{\"a\" 1}", "hello", "", "  ", "{}x",
    ] {
        assert!(decode_value(&bv(bad)).is_err(), "accepted: {}", bad);
    }
}

#[test]
fn number_from_text_classifies() {
    assert_eq!(number_from_text(bv("5")), Some(Json::Int(5)));
    assert_eq!(number_from_text(bv("-12")), Some(Json::Int(-12)));
    assert_eq!(number_from_text(bv("123.45")), Some(Json::Num(bv("123.45"))));
    assert_eq!(
        number_from_text(bv("123456789012345678901234567890")),
        Some(Json::Num(bv("123456789012345678901234567890")))
    );
    assert_eq!(number_from_text(bv("abc")), None);
    assert_eq!(number_from_text(bv("")), None);
    assert_eq!(number_from_text(bv("1.")), None);
}

#[test]
fn agrees_with_serde_json() {
    // this codec's output is valid JSON to serde_json
    let v = obj(vec![
        ("s", Json::Str(bv("a\"b\n"))),
        ("n", Json::Num(bv("2.5"))),
        ("l", Json::Arr(vec![Json::Int(1), Json::Null])),
    ]);
    let bytes = encode_value(&v);
    let parsed: serde_json::Value = serde_json::from_slice(&bytes).unwrap();
    let mut expected = serde_json::Map::new();
    expected.insert(
        "s".to_string(),
        serde_json::Value::String("a\"b\n".to_string()),
    );
    expected.insert(
        "n".to_string(),
        serde_json::Value::Number(serde_json::Number::from_f64(2.5).unwrap()),
    );
    expected.insert(
        "l".to_string(),
        serde_json::Value::Array(vec![
            serde_json::Value::Number(serde_json::Number::from(1)),
            serde_json::Value::Null,
        ]),
    );
    assert_eq!(parsed, serde_json::Value::Object(expected));

    // serde_json's output is readable by this decoder
    let mut m = serde_json::Map::new();
    m.insert("x".to_string(), serde_json::Value::Bool(true));
    m.insert(
        "y".to_string(),
        serde_json::Value::String("ok".to_string()),
    );
    let text = serde_json::to_vec(&serde_json::Value::Object(m)).unwrap();
    let decoded = decode_value(&text).unwrap();
    assert_eq!(
        decoded,
        obj(vec![("x", Json::Bool(true)), ("y", Json::Str(bv("ok")))])
    );
}

use blink1_mqtt::{decode, Command, DecodeErrorKind};

#[test]
fn test_deserialize_color() {
    let str = r#"{"color":{"r":127,"g":12,"b":24}}"#;

    let result = decode(str);

    match result {
        Ok(cmd) => match cmd {
            Command::Blink { blink } => panic!("did not expect {:?}", blink),
            Command::Color { color } => {
                assert_eq!(color.r, 127);
                assert_eq!(color.g, 12);
                assert_eq!(color.b, 24);
            }
        },
        Err(e) => {
            panic!("Unable to parse message: {}", e.message());
        }
    }
}

#[test]
fn test_deserialize_blink() {
    let str = r#"{"blink":{"frequency":2,"color":{"r":13,"g":8,"b":247}}}"#;

    let result = decode(str);

    match result {
        Ok(cmd) => match cmd {
            Command::Blink { blink } => {
                assert_eq!(blink.interval_ms, 2);
                assert_eq!(blink.count, 0);
                assert_eq!(blink.color.r, 13);
                assert_eq!(blink.color.g, 8);
                assert_eq!(blink.color.b, 247);
            }
            Command::Color { color } => panic!("did not expect {:?}", color),
        },
        Err(e) => {
            panic!("Unable to parse message: {}", e.message());
        }
    }
}

#[test]
fn decode_full_blink() {
    let cmd = decode(r#"{"blink":{"frequency":50,"count":3,"color":{"r":1,"g":2,"b":3}}}"#).unwrap();
    match cmd {
        Command::Blink { blink } => {
            assert_eq!(blink.interval_ms, 50);
            assert_eq!(blink.count, 3);
            assert_eq!((blink.color.r, blink.color.g, blink.color.b), (1, 2, 3));
        }
        Command::Color { .. } => panic!("expected a blink"),
    }
}

#[test]
fn decode_missing_channels_default_to_zero() {
    let cmd = decode(r#"{"color":{"g":9}}"#).unwrap();
    match cmd {
        Command::Color { color } => {
            assert_eq!((color.r, color.g, color.b), (0, 9, 0));
        }
        Command::Blink { .. } => panic!("expected a color"),
    }
}

#[test]
fn decode_both_keys_is_ambiguous() {
    let e = decode(r#"{"color":{"r":1},"blink":{"color":{}}}"#).unwrap_err();
    assert_eq!(e.kind, DecodeErrorKind::AmbiguousShape);
    assert_eq!(e.text, r#"{"color":{"r":1},"blink":{"color":{}}}"#);
}

#[test]
fn decode_neither_key_is_unknown() {
    let e = decode(r#"{"other":1}"#).unwrap_err();
    assert_eq!(e.kind, DecodeErrorKind::UnknownShape);
}

#[test]
fn decode_malformed_text() {
    let e = decode("not json at all").unwrap_err();
    assert_eq!(e.kind, DecodeErrorKind::MalformedText);
    assert_eq!(e.message(), "payload is not valid JSON");
    assert_eq!(e.text, "not json at all");
}

#[test]
fn decode_top_level_not_an_object() {
    let e = decode(r#"[1,2,3]"#).unwrap_err();
    assert_eq!(e.kind, DecodeErrorKind::NotAnObject);
}

#[test]
fn decode_wrong_channel_type() {
    let e = decode(r#"{"color":{"r":"red"}}"#).unwrap_err();
    assert_eq!(e.kind, DecodeErrorKind::WrongFieldType);
    let e = decode(r#"{"color":{"r":-1}}"#).unwrap_err();
    assert_eq!(e.kind, DecodeErrorKind::WrongFieldType);
    let e = decode(r#"{"color":{"r":2.5}}"#).unwrap_err();
    assert_eq!(e.kind, DecodeErrorKind::WrongFieldType);
    let e = decode(r#"{"color":7}"#).unwrap_err();
    assert_eq!(e.kind, DecodeErrorKind::WrongFieldType);
}

#[test]
fn decode_blink_without_color_is_rejected() {
    let e = decode(r#"{"blink":{"count":2}}"#).unwrap_err();
    assert_eq!(e.kind, DecodeErrorKind::MissingColor);
}

#[test]
fn decode_huge_channel_value_passes_through() {
    let cmd = decode(r#"{"color":{"r":18446744073709551615}}"#).unwrap();
    match cmd {
        Command::Color { color } => assert_eq!(color.r, u64::MAX),
        Command::Blink { .. } => panic!("expected a color"),
    }
}

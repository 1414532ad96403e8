use blink1_mqtt::{decode, status_payload, Color, Command};

#[test]
fn status_payload_exact_text() {
    let c = Color { r: 13, g: 8, b: 247 };
    let payload = String::from_utf8(status_payload(&c)).unwrap();
    assert_eq!(payload, r#"{"r":13,"g":8,"b":247}"#);
}

#[test]
fn status_payload_zero_color() {
    let c = Color { r: 0, g: 0, b: 0 };
    let payload = String::from_utf8(status_payload(&c)).unwrap();
    assert_eq!(payload, r#"{"r":0,"g":0,"b":0}"#);
}

#[test]
fn status_payload_largest_channel() {
    let c = Color { r: u64::MAX, g: 1, b: 10 };
    let payload = String::from_utf8(status_payload(&c)).unwrap();
    assert_eq!(payload, r#"{"r":18446744073709551615,"g":1,"b":10}"#);
}

#[test]
fn color_round_trip_is_lossless() {
    let colors = [
        Color { r: 127, g: 12, b: 24 },
        Color { r: 0, g: 0, b: 0 },
        Color { r: u64::MAX, g: 255, b: 1 },
    ];
    for c in colors {
        let reencoded = String::from_utf8(status_payload(&c)).unwrap();
        let wrapped = format!(r#"{{"color":{}}}"#, reencoded);
        match decode(&wrapped).unwrap() {
            Command::Color { color } => assert_eq!(color, c),
            Command::Blink { .. } => panic!("expected a color"),
        }
    }
}

#[test]
fn status_payload_parses_as_json() {
    let c = Color { r: 5, g: 6, b: 7 };
    let payload = String::from_utf8(status_payload(&c)).unwrap();
    let v: serde_json::Value = serde_json::from_str(&payload).unwrap();
    assert_eq!(v["r"].as_u64(), Some(5));
    assert_eq!(v["g"].as_u64(), Some(6));
    assert_eq!(v["b"].as_u64(), Some(7));
}

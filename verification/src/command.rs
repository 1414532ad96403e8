//! The command model: the two command shapes the device accepts, their
//! decoder from parsed JSON documents, and the status payload encoder.
//!
//! A payload is one of two shapes, told apart by which of the two mutually
//! exclusive top-level keys, `color` or `blink`, is present — a payload with
//! both or with neither is a decode error. Numeric fields absent from the
//! payload fall back to 0; a present field of the wrong type is an error.

use vstd::prelude::*;

use crate::json::{Json, lookup, lookup_spec, parse_of, parse_payload};

verus! {

/// One color of the notification light: three independent channel values.
/// Channel values are passed through exactly as decoded; the device layer is
/// the authority on valid ranges, so no clamping happens here.
#[derive(Clone, Copy, Debug, PartialEq, Eq, Structural)]
pub struct Color {
    pub r: u64,
    pub g: u64,
    pub b: u64,
}

/// A blink instruction: `count` on/off cycles of `color`, with a pause of
/// `interval_ms` milliseconds after each device write. On the wire the
/// interval is carried under the key `frequency`. A count of zero is a
/// well-defined no-op.
#[derive(Clone, Copy, Debug, PartialEq, Eq, Structural)]
pub struct Blink {
    pub interval_ms: u64,
    pub count: u64,
    pub color: Color,
}

/// A decoded command, consumed once by the command loop.
#[derive(Clone, Copy, Debug, PartialEq, Eq, Structural)]
pub enum Command {
    Color { color: Color },
    Blink { blink: Blink },
}

/// Why a payload was rejected.
#[derive(Clone, Copy, Debug, PartialEq, Eq, Structural)]
pub enum DecodeErrorKind {
    /// The text is not valid JSON.
    MalformedText,
    /// The top level of the document is not an object.
    NotAnObject,
    /// Both `color` and `blink` are present at the top level.
    AmbiguousShape,
    /// Neither `color` nor `blink` is present at the top level.
    UnknownShape,
    /// A present field does not have the expected type.
    WrongFieldType,
    /// A `blink` object without its mandatory `color` member.
    MissingColor,
}

/// A rejected payload: the original text together with the reason.
#[derive(Debug)]
pub struct DecodeError {
    pub text: String,
    pub kind: DecodeErrorKind,
}

impl DecodeError {
    /// A fixed diagnostic line for each reason, for the operator's log.
    pub fn message(&self) -> (r: &'static str)
        ensures
            match self.kind {
                DecodeErrorKind::MalformedText => r@ == "payload is not valid JSON"@,
                DecodeErrorKind::NotAnObject => r@ == "payload is not a JSON object"@,
                DecodeErrorKind::AmbiguousShape => r@ == "payload has both color and blink"@,
                DecodeErrorKind::UnknownShape => r@ == "payload has neither color nor blink"@,
                DecodeErrorKind::WrongFieldType => r@ == "a field has the wrong type"@,
                DecodeErrorKind::MissingColor => r@ == "blink is missing its color"@,
            },
    {
        match self.kind {
            DecodeErrorKind::MalformedText => "payload is not valid JSON",
            DecodeErrorKind::NotAnObject => "payload is not a JSON object",
            DecodeErrorKind::AmbiguousShape => "payload has both color and blink",
            DecodeErrorKind::UnknownShape => "payload has neither color nor blink",
            DecodeErrorKind::WrongFieldType => "a field has the wrong type",
            DecodeErrorKind::MissingColor => "blink is missing its color",
        }
    }
}

/// The neutral (off) color the device is reset to.
pub open spec fn off_spec() -> Color {
    Color { r: 0, g: 0, b: 0 }
}

/// Returns the neutral (off) color.
pub fn off_color() -> (c: Color)
    ensures
        c == off_spec(),
{
    Color { r: 0, g: 0, b: 0 }
}

/// An unsigned field of an object: 0 when absent, its value when it is an
/// unsigned 64-bit integer, and `None` (a type error) otherwise.
pub open spec fn uint_field_spec(fields: Seq<(String, Json)>, key: Seq<char>) -> Option<u64> {
    match lookup_spec(fields, key) {
        Option::None => Option::Some(0u64),
        Option::Some(Json::UInt(n)) => Option::Some(n),
        Option::Some(_) => Option::None,
    }
}

/// What a JSON value must be to denote a [`Color`]: an object whose `r`, `g`
/// and `b` members, where present, are unsigned integers.
pub open spec fn color_value_spec(j: Json) -> Result<Color, DecodeErrorKind> {
    match j {
        Json::Obj(fs) => match (
            uint_field_spec(fs@, "r"@),
            uint_field_spec(fs@, "g"@),
            uint_field_spec(fs@, "b"@),
        ) {
            (Option::Some(r), Option::Some(g), Option::Some(b)) => Result::Ok(Color { r, g, b }),
            _ => Result::Err(DecodeErrorKind::WrongFieldType),
        },
        _ => Result::Err(DecodeErrorKind::WrongFieldType),
    }
}

/// What a JSON value must be to denote a [`Blink`]: an object with a
/// mandatory `color` member and optional `frequency` (the interval in
/// milliseconds) and `count` members.
pub open spec fn blink_value_spec(j: Json) -> Result<Blink, DecodeErrorKind> {
    match j {
        Json::Obj(fs) => match lookup_spec(fs@, "color"@) {
            Option::None => Result::Err(DecodeErrorKind::MissingColor),
            Option::Some(cj) => match color_value_spec(cj) {
                Result::Err(k) => Result::Err(k),
                Result::Ok(color) => match (
                    uint_field_spec(fs@, "frequency"@),
                    uint_field_spec(fs@, "count"@),
                ) {
                    (Option::Some(interval_ms), Option::Some(count)) => Result::Ok(
                        Blink { interval_ms, count, color },
                    ),
                    _ => Result::Err(DecodeErrorKind::WrongFieldType),
                },
            },
        },
        _ => Result::Err(DecodeErrorKind::WrongFieldType),
    }
}

/// The command a parsed document denotes, or the exact reason it denotes
/// none: the shape is selected by which of the two mutually exclusive
/// top-level keys is present, and a document with both or with neither is
/// rejected.
pub open spec fn interp_spec(j: Json) -> Result<Command, DecodeErrorKind> {
    match j {
        Json::Obj(fs) => match (lookup_spec(fs@, "color"@), lookup_spec(fs@, "blink"@)) {
            (Option::Some(cj), Option::None) => match color_value_spec(cj) {
                Result::Ok(color) => Result::Ok(Command::Color { color }),
                Result::Err(k) => Result::Err(k),
            },
            (Option::None, Option::Some(bj)) => match blink_value_spec(bj) {
                Result::Ok(blink) => Result::Ok(Command::Blink { blink }),
                Result::Err(k) => Result::Err(k),
            },
            (Option::Some(_), Option::Some(_)) => Result::Err(DecodeErrorKind::AmbiguousShape),
            (Option::None, Option::None) => Result::Err(DecodeErrorKind::UnknownShape),
        },
        _ => Result::Err(DecodeErrorKind::NotAnObject),
    }
}

/// Reads an unsigned field of an object, 0 when absent.
fn uint_field(fields: &Vec<(String, Json)>, key: &String) -> (r: Option<u64>)
    ensures
        r == uint_field_spec(fields@, key@),
{
    match lookup(fields, key) {
        Option::None => Option::Some(0u64),
        Option::Some(j) => match j {
            Json::UInt(n) => Option::Some(*n),
            _ => Option::None,
        },
    }
}

/// Reads a JSON value as a [`Color`].
fn color_value(j: &Json) -> (r: Result<Color, DecodeErrorKind>)
    ensures
        r == color_value_spec(*j),
{
    match j {
        Json::Obj(fs) => {
            let rk: String = "r".to_owned();
            let gk: String = "g".to_owned();
            let bk: String = "b".to_owned();
            match (uint_field(fs, &rk), uint_field(fs, &gk), uint_field(fs, &bk)) {
                (Option::Some(r), Option::Some(g), Option::Some(b)) => Result::Ok(
                    Color { r, g, b },
                ),
                _ => Result::Err(DecodeErrorKind::WrongFieldType),
            }
        },
        _ => Result::Err(DecodeErrorKind::WrongFieldType),
    }
}

/// Reads a JSON value as a [`Blink`].
fn blink_value(j: &Json) -> (r: Result<Blink, DecodeErrorKind>)
    ensures
        r == blink_value_spec(*j),
{
    match j {
        Json::Obj(fs) => {
            let ck: String = "color".to_owned();
            match lookup(fs, &ck) {
                Option::None => Result::Err(DecodeErrorKind::MissingColor),
                Option::Some(cj) => match color_value(cj) {
                    Result::Err(k) => Result::Err(k),
                    Result::Ok(color) => {
                        let fk: String = "frequency".to_owned();
                        let nk: String = "count".to_owned();
                        match (uint_field(fs, &fk), uint_field(fs, &nk)) {
                            (Option::Some(interval_ms), Option::Some(count)) => Result::Ok(
                                Blink { interval_ms, count, color },
                            ),
                            _ => Result::Err(DecodeErrorKind::WrongFieldType),
                        }
                    },
                },
            }
        },
        _ => Result::Err(DecodeErrorKind::WrongFieldType),
    }
}

/// Reads a parsed document as a [`Command`].
pub fn interp(j: &Json) -> (r: Result<Command, DecodeErrorKind>)
    ensures
        r == interp_spec(*j),
{
    match j {
        Json::Obj(fs) => {
            let ck: String = "color".to_owned();
            let bk: String = "blink".to_owned();
            match (lookup(fs, &ck), lookup(fs, &bk)) {
                (Option::Some(cj), Option::None) => match color_value(cj) {
                    Result::Ok(color) => Result::Ok(Command::Color { color }),
                    Result::Err(k) => Result::Err(k),
                },
                (Option::None, Option::Some(bj)) => match blink_value(bj) {
                    Result::Ok(blink) => Result::Ok(Command::Blink { blink }),
                    Result::Err(k) => Result::Err(k),
                },
                (Option::Some(_), Option::Some(_)) => Result::Err(
                    DecodeErrorKind::AmbiguousShape,
                ),
                (Option::None, Option::None) => Result::Err(DecodeErrorKind::UnknownShape),
            }
        },
        _ => Result::Err(DecodeErrorKind::NotAnObject),
    }
}

/// Decodes one payload text into a command, or into the error that tells the
/// operator exactly why it was rejected, with the offending text kept for the
/// log. Decoding never panics and has no side effects; the loop logs an error
/// and goes on.
pub fn decode(text: &str) -> (r: Result<Command, DecodeError>)
    ensures
        match parse_of(text@) {
            Option::None => r matches Err(e) && e.kind == DecodeErrorKind::MalformedText
                && e.text@ == text@,
            Option::Some(doc) => match interp_spec(doc) {
                Result::Ok(cmd) => r matches Ok(c) && c == cmd,
                Result::Err(k) => r matches Err(e) && e.kind == k && e.text@ == text@,
            },
        },
{
    match parse_payload(text) {
        Option::None => Result::Err(
            DecodeError { text: text.to_owned(), kind: DecodeErrorKind::MalformedText },
        ),
        Option::Some(doc) => match interp(&doc) {
            Result::Ok(cmd) => Result::Ok(cmd),
            Result::Err(k) => Result::Err(DecodeError { text: text.to_owned(), kind: k }),
        },
    }
}

/// ASCII bytes used by the status payload encoder.
pub const B_LBRACE: u8 = 123;

pub const B_RBRACE: u8 = 125;

pub const B_QUOTE: u8 = 34;

pub const B_COLON: u8 = 58;

pub const B_COMMA: u8 = 44;

pub const B_R: u8 = 114;

pub const B_G: u8 = 103;

pub const B_B: u8 = 98;

/// The decimal digits of `n`, most significant first, as ASCII bytes.
pub open spec fn dec_digits(n: nat) -> Seq<u8>
    decreases n,
{
    if n < 10 {
        seq![(48 + n) as u8]
    } else {
        dec_digits(n / 10).push((48 + n % 10) as u8)
    }
}

/// The exact status payload published for a color: a JSON object with the
/// three channel values in decimal, `{"r":..,"g":..,"b":..}`.
pub open spec fn status_payload_spec(c: Color) -> Seq<u8> {
    seq![B_LBRACE, B_QUOTE, B_R, B_QUOTE, B_COLON] + dec_digits(c.r as nat)
        + seq![B_COMMA, B_QUOTE, B_G, B_QUOTE, B_COLON] + dec_digits(c.g as nat)
        + seq![B_COMMA, B_QUOTE, B_B, B_QUOTE, B_COLON] + dec_digits(c.b as nat) + seq![B_RBRACE]
}

/// Writes `n` in decimal.
pub fn u64_dec(n: u64) -> (r: Vec<u8>)
    ensures
        r@ == dec_digits(n as nat),
    decreases n,
{
    if n < 10 {
        let mut v: Vec<u8> = Vec::new();
        v.push(48 + (n as u8));
        v
    } else {
        proof {
            assert(n / 10 < n) by (nonlinear_arith)
                requires
                    n >= 10,
            ;
        }
        let mut v = u64_dec(n / 10);
        v.push(48 + ((n % 10) as u8));
        v
    }
}

/// Encodes the status payload mirroring `c` back to the broker.
pub fn status_payload(c: &Color) -> (r: Vec<u8>)
    ensures
        r@ == status_payload_spec(*c),
{
    let mut out: Vec<u8> = Vec::new();
    out.push(B_LBRACE);
    out.push(B_QUOTE);
    out.push(B_R);
    out.push(B_QUOTE);
    out.push(B_COLON);
    let mut dr = u64_dec(c.r);
    out.append(&mut dr);
    out.push(B_COMMA);
    out.push(B_QUOTE);
    out.push(B_G);
    out.push(B_QUOTE);
    out.push(B_COLON);
    let mut dg = u64_dec(c.g);
    out.append(&mut dg);
    out.push(B_COMMA);
    out.push(B_QUOTE);
    out.push(B_B);
    out.push(B_QUOTE);
    out.push(B_COLON);
    let mut db = u64_dec(c.b);
    out.append(&mut db);
    out.push(B_RBRACE);
    proof {
        assert(out@ =~= status_payload_spec(*c));
    }
    out
}

/// A document of the canonical re-encoded color shape: the object
/// `{"r":..,"g":..,"b":..}` with exactly the channel values of `c`.
pub open spec fn is_color_obj(j: Json, c: Color) -> bool {
    &&& j matches Json::Obj(fs)
    &&& fs@.len() == 3
    &&& fs@[0].0@ == "r"@
    &&& fs@[0].1 == Json::UInt(c.r)
    &&& fs@[1].0@ == "g"@
    &&& fs@[1].1 == Json::UInt(c.g)
    &&& fs@[2].0@ == "b"@
    &&& fs@[2].1 == Json::UInt(c.b)
}

/// A document of the canonical `SetColor` shape: a single top-level `color`
/// key bound to the canonical color object of `c`.
pub open spec fn is_set_color_doc(j: Json, c: Color) -> bool {
    &&& j matches Json::Obj(fs)
    &&& fs@.len() == 1
    &&& fs@[0].0@ == "color"@
    &&& is_color_obj(fs@[0].1, c)
}

/// Round-trip law: any document of the canonical re-encoded form of a color
/// — the shape the status encoder gives the three channel values — decodes
/// back to exactly that color, so decode followed by re-encode is lossless
/// for the three channels.
pub proof fn lemma_set_color_round_trip(j: Json, c: Color)
    requires
        is_set_color_doc(j, c),
    ensures
        interp_spec(j) == Result::<Command, DecodeErrorKind>::Ok(Command::Color { color: c }),
{
    reveal_with_fuel(crate::json::lookup_spec, 5);
    reveal_strlit("r");
    reveal_strlit("g");
    reveal_strlit("b");
    reveal_strlit("color");
    reveal_strlit("blink");
    assert("color"@[0] == 'c' && "blink"@[0] == 'b');
    assert("color"@ != "blink"@);
    assert("r"@[0] == 'r' && "g"@[0] == 'g' && "b"@[0] == 'b');
    assert("r"@ != "g"@ && "r"@ != "b"@ && "g"@ != "b"@);
    let fs = j->Obj_0;
    assert(lookup_spec(fs@, "color"@) == Some(fs@[0].1));
    assert(fs@.skip(1).len() == 0);
    assert(lookup_spec(fs@, "blink"@) is None);
    let cfs = fs@[0].1->Obj_0;
    assert(lookup_spec(cfs@, "r"@) == Some(cfs@[0].1));
    assert(cfs@.skip(1)[0] == cfs@[1]);
    assert(cfs@.skip(1).skip(1) =~= cfs@.skip(2));
    assert(cfs@.skip(2)[0] == cfs@[2]);
    assert(lookup_spec(cfs@, "g"@) == Some(cfs@[1].1));
    assert(lookup_spec(cfs@, "b"@) == Some(cfs@[2].1));
    assert(color_value_spec(fs@[0].1) == Result::<Color, DecodeErrorKind>::Ok(c));
}

/// Shape law: a top-level object with both `color` and `blink` present is
/// rejected as ambiguous, whatever the two are bound to.
pub proof fn lemma_both_keys_rejected(j: Json)
    requires
        j matches Json::Obj(fs),
        lookup_spec(j->Obj_0@, "color"@) is Some,
        lookup_spec(j->Obj_0@, "blink"@) is Some,
    ensures
        interp_spec(j) == Result::<Command, DecodeErrorKind>::Err(DecodeErrorKind::AmbiguousShape),
{
}

/// Shape law: a top-level object with neither `color` nor `blink` present is
/// rejected as unknown.
pub proof fn lemma_neither_key_rejected(j: Json)
    requires
        j matches Json::Obj(fs),
        lookup_spec(j->Obj_0@, "color"@) is None,
        lookup_spec(j->Obj_0@, "blink"@) is None,
    ensures
        interp_spec(j) == Result::<Command, DecodeErrorKind>::Err(DecodeErrorKind::UnknownShape),
{
}

} // verus!

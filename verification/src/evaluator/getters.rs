use vstd::prelude::*;
use vstd::string::*;

use sha2::Digest;

use crate::evaluator::models::ConfigSpecType;
use crate::jsonval::{json_view, JsonV, JsonValue};
use crate::strutil::{bool_str, bool_to_string, dec_trunc_of, parse_dec_trunc, parse_i64, parse_i64_spec};

verus! {

// ---------------------------------------------------------------------------
// Bucketing hash
// ---------------------------------------------------------------------------

/// The SHA-256 digest of a byte string, as the sha2 crate computes it.
pub uninterp spec fn sha256_of(data: Seq<u8>) -> Seq<u8>;

/// Relies on sha2::Sha256::digest: a 32-byte digest that depends on the input
/// bytes alone.
#[verifier::external_body]
fn sha256(s: &str) -> (r: Vec<u8>)
    ensures
        r@ == sha256_of(s.spec_bytes()),
        r@.len() == 32,
{
    sha2::Sha256::digest(s.as_bytes()).to_vec()
}

/// The first eight bytes of a byte string read as a big-endian integer.
pub open spec fn be64(d: Seq<u8>) -> int {
    d[0] as int * 0x100000000000000 + d[1] as int * 0x1000000000000 + d[2] as int * 0x10000000000
        + d[3] as int * 0x100000000 + d[4] as int * 0x1000000 + d[5] as int * 0x10000 + d[6] as int
        * 0x100 + d[7] as int
}

/// The bucketing hash of a string: SHA-256 of its UTF-8 bytes, then the first
/// eight digest bytes big-endian.
pub open spec fn hash64_of(s: Seq<char>) -> int {
    be64(sha256_of(vstd::utf8::encode_utf8(s)))
}

/// Hash a string for bucketing.
pub fn get_hash(s: String) -> (r: u64)
    ensures
        r as int == hash64_of(s@),
{
    let d = sha256(s.as_str());
    let b0 = d[0] as u64;
    let b1 = d[1] as u64;
    let b2 = d[2] as u64;
    let b3 = d[3] as u64;
    let b4 = d[4] as u64;
    let b5 = d[5] as u64;
    let b6 = d[6] as u64;
    let b7 = d[7] as u64;
    b0 * 0x100000000000000 + b1 * 0x1000000000000 + b2 * 0x10000000000 + b3 * 0x100000000 + b4
        * 0x1000000 + b5 * 0x10000 + b6 * 0x100 + b7
}

// ---------------------------------------------------------------------------
// Numeric comparison
// ---------------------------------------------------------------------------

/// How two strings compare when both are read as JSON numbers.
#[derive(Debug, Clone, Copy, PartialEq, Eq, Structural)]
pub enum NumOrder {
    Less,
    Equal,
    Greater,
    /// Either side did not parse as a JSON number.
    Absent,
}

/// The outcome of comparing two strings as JSON numbers; what serde_json's
/// number parsing followed by the standard comparison of the parsed values
/// gives. It depends on the two strings alone.
pub uninterp spec fn num_order_of(a: Seq<char>, b: Seq<char>) -> NumOrder;

/// Relies on serde_json::Number::from_str and the standard comparison of the
/// parsed values: the outcome is a function of the two strings alone.
#[verifier::external_body]
pub(crate) fn num_order(a: &str, b: &str) -> (r: NumOrder)
    ensures
        r == num_order_of(a@, b@),
{
    let x: serde_json::Number = match a.parse() {
        Ok(n) => n,
        Err(_) => return NumOrder::Absent,
    };
    let y: serde_json::Number = match b.parse() {
        Ok(n) => n,
        Err(_) => return NumOrder::Absent,
    };
    match x.as_f64().partial_cmp(&y.as_f64()) {
        Some(core::cmp::Ordering::Less) => NumOrder::Less,
        Some(core::cmp::Ordering::Equal) => NumOrder::Equal,
        Some(core::cmp::Ordering::Greater) => NumOrder::Greater,
        None => NumOrder::Absent,
    }
}

// ---------------------------------------------------------------------------
// Coercions
// ---------------------------------------------------------------------------

/// The string a JSON value coerces to: null, arrays and objects give the
/// empty string, booleans give "true"/"false", numbers their decimal form.
pub open spec fn string_of(v: JsonV) -> Seq<char> {
    match v {
        JsonV::Null => Seq::empty(),
        JsonV::Bool(b) => bool_str(b),
        JsonV::Num(s) => s,
        JsonV::Str(s) => s,
        JsonV::Arr(_) => Seq::empty(),
        JsonV::Obj(_) => Seq::empty(),
    }
}

/// Coerce a JSON value to a string.
pub fn get_string(v: &JsonValue) -> (r: String)
    ensures
        r@ == string_of(v@),
{
    match v {
        JsonValue::Null => String::new(),
        JsonValue::Bool(b) => bool_to_string(*b),
        JsonValue::Num(s) => s.clone(),
        JsonValue::Str(s) => s.clone(),
        JsonValue::Arr(_) => String::new(),
        JsonValue::Obj(_) => String::new(),
    }
}

/// The string that numeric comparison reads from a JSON value: numbers and
/// strings compare by their text, everything else is absent.
pub open spec fn numeric_str_of(v: JsonV) -> Option<Seq<char>> {
    match v {
        JsonV::Num(s) => Some(s),
        JsonV::Str(s) => Some(s),
        _ => None,
    }
}

/// A JSON value as unix-epoch seconds, before the millisecond correction:
/// a number gives its integer part truncated toward zero (0 when that does
/// not fit in i64), a string parses as a strict i64 (0 when it does not),
/// and everything else gives 0.
pub open spec fn epoch_raw(v: JsonV) -> int {
    match v {
        JsonV::Num(s) => dec_trunc_of(s),
        JsonV::Str(s) => match parse_i64_spec(s) {
            Some(n) => n,
            None => 0,
        },
        _ => 0,
    }
}

/// A JSON value as unix-epoch seconds. A magnitude above i32::MAX is taken
/// for milliseconds and divided by 1000, rounding toward zero.
pub open spec fn epoch_of(v: JsonV) -> int {
    let raw = epoch_raw(v);
    if raw > i32::MAX as int {
        raw / 1000
    } else if raw < -(i32::MAX as int) {
        -((-raw) / 1000)
    } else {
        raw
    }
}

/// Coerce a JSON value to unix-epoch seconds.
pub fn get_unix_epoch(v: &JsonValue) -> (r: i64)
    ensures
        r as int == epoch_of(v@),
{
    let raw: i64 = match v {
        JsonValue::Num(s) => parse_dec_trunc(s.as_str()),
        JsonValue::Str(s) => match parse_i64(s.as_str()) {
            Some(n) => n,
            None => 0,
        },
        _ => 0,
    };
    if raw > 2147483647i64 {
        ((raw as u64) / 1000u64) as i64
    } else if raw < -2147483647i64 {
        let m: u128 = (-(raw as i128)) as u128;
        let q: u128 = m / 1000u128;
        -(q as i64)
    } else {
        raw
    }
}

/// The config value an evaluation reports: the given value for a dynamic
/// config, nothing for a gate or an unknown spec type.
pub open spec fn config_value_of(v: JsonV, config_type: ConfigSpecType) -> Option<JsonV> {
    match config_type {
        ConfigSpecType::DynamicConfig => Some(v),
        ConfigSpecType::FeatureGate => None,
        ConfigSpecType::Unknown => None,
    }
}

/// Select the config value for a result.
pub fn get_config_value(v: &JsonValue, config_type: ConfigSpecType) -> (r: Option<JsonValue>)
    ensures
        crate::evaluator::models::opt_json(r) == config_value_of(v@, config_type),
{
    match config_type {
        ConfigSpecType::DynamicConfig => Some(v.clone()),
        ConfigSpecType::FeatureGate => None,
        ConfigSpecType::Unknown => None,
    }
}

} // verus!

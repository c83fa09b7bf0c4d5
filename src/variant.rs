//! Decoded property values, and the decoding of raw provider values into them.
use vstd::prelude::*;
use crate::error::WMIError;

verus! {

/// A decoded property value.
#[derive(Debug, PartialEq)]
pub enum Variant {
    Empty,
    Null,
    Bool(bool),
    /// Every integer type of the provider is widened to this case.
    I8(i64),
    String(String),
    /// A timestamp in the provider's textual date-time form.
    Timestamp(String),
    Array(Vec<Variant>),
}

/// A property value as the provider hands it out, by its type tag.
#[derive(Debug, PartialEq)]
pub enum RawValue {
    Empty,
    Null,
    Bool(bool),
    I1(i8),
    I2(i16),
    I4(i32),
    I8(i64),
    UI1(u8),
    UI2(u16),
    UI4(u32),
    UI8(u64),
    BStr(String),
    DateTime(String),
    /// A floating-point value; its payload is not carried.
    Real,
    Array(Vec<RawValue>),
    /// A type tag that is not decoded.
    Other(u16),
}

/// A scalar raw value that decodes.
pub open spec fn scalar_decodable(raw: RawValue) -> bool {
    match raw {
        RawValue::UI8(x) => x <= i64::MAX,
        RawValue::Real | RawValue::Array(_) | RawValue::Other(_) => false,
        _ => true,
    }
}

/// A raw value that decodes: a decodable scalar, or an array of them.
pub open spec fn decodable(raw: RawValue) -> bool {
    match raw {
        RawValue::Array(items) => forall|i: int| 0 <= i < items@.len() ==> scalar_decodable(#[trigger] items@[i]),
        _ => scalar_decodable(raw),
    }
}

/// `v` is what the scalar raw value decodes to.
pub open spec fn scalar_decodes(raw: RawValue, v: Variant) -> bool {
    match raw {
        RawValue::Empty => v is Empty,
        RawValue::Null => v is Null,
        RawValue::Bool(b) => v == Variant::Bool(b),
        RawValue::I1(x) => v == Variant::I8(x as i64),
        RawValue::I2(x) => v == Variant::I8(x as i64),
        RawValue::I4(x) => v == Variant::I8(x as i64),
        RawValue::I8(x) => v == Variant::I8(x),
        RawValue::UI1(x) => v == Variant::I8(x as i64),
        RawValue::UI2(x) => v == Variant::I8(x as i64),
        RawValue::UI4(x) => v == Variant::I8(x as i64),
        RawValue::UI8(x) => x <= i64::MAX && v == Variant::I8(x as i64),
        RawValue::BStr(s) => v is String && v->String_0@ == s@,
        RawValue::DateTime(s) => v is Timestamp && v->Timestamp_0@ == s@,
        _ => false,
    }
}

/// `v` is what the raw value decodes to.
pub open spec fn decodes(raw: RawValue, v: Variant) -> bool {
    match raw {
        RawValue::Array(items) => v is Array && v->Array_0@.len() == items@.len() && forall|i: int|
            0 <= i < items@.len() ==> scalar_decodes(#[trigger] items@[i], v->Array_0@[i]),
        _ => scalar_decodes(raw, v),
    }
}

/// Two scalar values hold the same case and content.
pub open spec fn same_scalar(a: Variant, b: Variant) -> bool {
    match (a, b) {
        (Variant::Empty, Variant::Empty) => true,
        (Variant::Null, Variant::Null) => true,
        (Variant::Bool(x), Variant::Bool(y)) => x == y,
        (Variant::I8(x), Variant::I8(y)) => x == y,
        (Variant::String(x), Variant::String(y)) => x@ == y@,
        (Variant::Timestamp(x), Variant::Timestamp(y)) => x@ == y@,
        _ => false,
    }
}

/// Two values hold the same case and content.
pub open spec fn same_value(a: Variant, b: Variant) -> bool {
    match (a, b) {
        (Variant::Array(x), Variant::Array(y)) => x@.len() == y@.len() && forall|i: int|
            0 <= i < x@.len() ==> same_scalar(#[trigger] x@[i], y@[i]),
        _ => same_scalar(a, b),
    }
}

/// A value that the provider can carry: a scalar, or an array of scalars.
pub open spec fn supported(v: Variant) -> bool {
    match v {
        Variant::Array(items) => forall|i: int| 0 <= i < items@.len() ==> !(#[trigger] items@[i] is Array),
        _ => true,
    }
}

/// `raw` is how the provider carries the scalar value `v`.
pub open spec fn scalar_encodes(v: Variant, raw: RawValue) -> bool {
    match v {
        Variant::Empty => raw is Empty,
        Variant::Null => raw is Null,
        Variant::Bool(b) => raw == RawValue::Bool(b),
        Variant::I8(x) => raw == RawValue::I8(x),
        Variant::String(s) => raw is BStr && raw->BStr_0@ == s@,
        Variant::Timestamp(s) => raw is DateTime && raw->DateTime_0@ == s@,
        Variant::Array(_) => false,
    }
}

/// `raw` is how the provider carries the value `v`.
pub open spec fn encodes(v: Variant, raw: RawValue) -> bool {
    match v {
        Variant::Array(items) => raw is Array && raw->Array_0@.len() == items@.len() && forall|i: int|
            0 <= i < items@.len() ==> scalar_encodes(#[trigger] items@[i], raw->Array_0@[i]),
        _ => scalar_encodes(v, raw),
    }
}

fn decode_scalar(raw: &RawValue) -> (r: Result<Variant, WMIError>)
    ensures
        r is Ok <==> scalar_decodable(*raw),
        r matches Ok(v) ==> scalar_decodes(*raw, v),
        r matches Err(e) ==> e == WMIError::UnsupportedValue,
{
    match raw {
        RawValue::Empty => Ok(Variant::Empty),
        RawValue::Null => Ok(Variant::Null),
        RawValue::Bool(b) => Ok(Variant::Bool(*b)),
        RawValue::I1(x) => Ok(Variant::I8(*x as i64)),
        RawValue::I2(x) => Ok(Variant::I8(*x as i64)),
        RawValue::I4(x) => Ok(Variant::I8(*x as i64)),
        RawValue::I8(x) => Ok(Variant::I8(*x)),
        RawValue::UI1(x) => Ok(Variant::I8(*x as i64)),
        RawValue::UI2(x) => Ok(Variant::I8(*x as i64)),
        RawValue::UI4(x) => Ok(Variant::I8(*x as i64)),
        RawValue::UI8(x) => {
            if *x <= i64::MAX as u64 {
                Ok(Variant::I8(*x as i64))
            } else {
                Err(WMIError::UnsupportedValue)
            }
        },
        RawValue::BStr(s) => Ok(Variant::String(s.clone())),
        RawValue::DateTime(s) => Ok(Variant::Timestamp(s.clone())),
        _ => Err(WMIError::UnsupportedValue),
    }
}

/// Decodes a raw provider value. Integers of every width become `I8`;
/// floating-point values, nested arrays and unknown type tags are refused.
pub fn decode_value(raw: &RawValue) -> (r: Result<Variant, WMIError>)
    ensures
        r is Ok <==> decodable(*raw),
        r matches Ok(v) ==> decodes(*raw, v),
        r matches Err(e) ==> e == WMIError::UnsupportedValue,
{
    match raw {
        RawValue::Array(items) => {
            let mut out: Vec<Variant> = Vec::new();
            let mut i: usize = 0;
            while i < items.len()
                invariant
                    i <= items.len(),
                    out@.len() == i,
                    *raw == RawValue::Array(*items),
                    forall|k: int| 0 <= k < i ==> scalar_decodable(#[trigger] items@[k]),
                    forall|k: int| 0 <= k < i ==> scalar_decodes(#[trigger] items@[k], out@[k]),
                decreases items.len() - i,
            {
                match decode_scalar(&items[i]) {
                    Ok(v) => out.push(v),
                    Err(e) => {
                        assert(!scalar_decodable(items@[i as int]));
                        assert(raw->Array_0@[i as int] == items@[i as int]);
                        assert(!decodable(*raw));
                        return Err(e);
                    },
                }
                i = i + 1;
            }
            Ok(Variant::Array(out))
        },
        _ => decode_scalar(raw),
    }
}

fn encode_scalar(v: &Variant) -> (r: RawValue)
    requires
        !(*v is Array),
    ensures
        scalar_encodes(*v, r),
{
    match v {
        Variant::Empty => RawValue::Empty,
        Variant::Null => RawValue::Null,
        Variant::Bool(b) => RawValue::Bool(*b),
        Variant::I8(x) => RawValue::I8(*x),
        Variant::String(s) => RawValue::BStr(s.clone()),
        Variant::Timestamp(s) => RawValue::DateTime(s.clone()),
        Variant::Array(_) => RawValue::Empty,
    }
}

/// Encodes a value the way the provider carries it: integers as `I8`, text
/// as `BStr`, timestamps as `DateTime`, arrays element by element.
pub fn encode_value(v: &Variant) -> (r: RawValue)
    requires
        supported(*v),
    ensures
        encodes(*v, r),
{
    match v {
        Variant::Array(items) => {
            let mut out: Vec<RawValue> = Vec::new();
            let mut i: usize = 0;
            while i < items.len()
                invariant
                    i <= items.len(),
                    out@.len() == i,
                    supported(*v),
                    *v == Variant::Array(*items),
                    forall|k: int| 0 <= k < i ==> scalar_encodes(#[trigger] items@[k], out@[k]),
                decreases items.len() - i,
            {
                let r = encode_scalar(&items[i]);
                out.push(r);
                i = i + 1;
            }
            RawValue::Array(out)
        },
        _ => encode_scalar(v),
    }
}

/// Decoding a supported value after encoding it gives back a value of the
/// same case and content.
pub proof fn lemma_round_trip(v: Variant, raw: RawValue, w: Variant)
    requires
        supported(v),
        encodes(v, raw),
        decodes(raw, w),
    ensures
        decodable(raw),
        same_value(w, v),
{
}

} // verus!

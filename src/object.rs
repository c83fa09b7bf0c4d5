//! A result object: the named property values of one provider object, and
//! their decoding into a generic mapping or into a record of declared fields.
use vstd::prelude::*;
use crate::error::WMIError;
use crate::lex::views;
use crate::query::{Field, FieldKind, Schema};
use crate::variant::{decodable, decode_value, decodes, RawValue, Variant};

verus! {

/// The properties of one result object, each a name and a raw value, in the
/// order in which the provider listed them.
pub struct IWbemClassWrapper {
    pub props: Vec<(String, RawValue)>,
}

/// The value of the first property named `name`, if any.
pub open spec fn lookup(props: Seq<(String, RawValue)>, name: Seq<char>) -> Option<RawValue>
    decreases props.len(),
{
    if props.len() == 0 {
        None
    } else if props[0].0@ == name {
        Some(props[0].1)
    } else {
        lookup(props.drop_first(), name)
    }
}

/// A raw value whose decoding a field accepts.
pub open spec fn raw_fits(f: Field, raw: RawValue) -> bool {
    &&& decodable(raw)
    &&& (f.nullable && (raw is Empty || raw is Null)) || match f.kind {
        FieldKind::Any => true,
        FieldKind::Bool => raw is Bool,
        FieldKind::Integer => raw is I1 || raw is I2 || raw is I4 || raw is I8 || raw is UI1
            || raw is UI2 || raw is UI4 || raw is UI8,
        FieldKind::Text => raw is BStr,
        FieldKind::Timestamp => raw is DateTime,
        FieldKind::Array => raw is Array,
    }
}

/// A decoded value that a field accepts.
pub open spec fn fits(f: Field, v: Variant) -> bool {
    (f.nullable && (v is Empty || v is Null)) || match f.kind {
        FieldKind::Any => true,
        FieldKind::Bool => v is Bool,
        FieldKind::Integer => v is I8,
        FieldKind::Text => v is String,
        FieldKind::Timestamp => v is Timestamp,
        FieldKind::Array => v is Array,
    }
}

/// The properties hold a value for the field, and the field accepts it.
pub open spec fn field_ok(props: Seq<(String, RawValue)>, f: Field) -> bool {
    lookup(props, f.name@) matches Some(raw) && raw_fits(f, raw)
}

/// `e` is the error that decoding the field meets.
pub open spec fn field_error(props: Seq<(String, RawValue)>, f: Field, e: WMIError) -> bool {
    match lookup(props, f.name@) {
        None => e is MissingProperty && e->MissingProperty_name@ == f.name@,
        Some(raw) => if !decodable(raw) {
            e == WMIError::UnsupportedValue
        } else {
            e is IncompatibleValue && e->IncompatibleValue_name@ == f.name@
        },
    }
}

/// `r` is the outcome of decoding every property of `props` into a mapping.
pub open spec fn map_decoded(props: Seq<(String, RawValue)>, r: Result<Vec<(String, Variant)>, WMIError>) -> bool {
    &&& r is Ok <==> forall|i: int| 0 <= i < props.len() ==> decodable(#[trigger] props[i].1)
    &&& r matches Ok(m) ==> {
        &&& m@.len() == props.len()
        &&& forall|i: int| 0 <= i < m@.len() ==> (#[trigger] m@[i]).0@ == props[i].0@
            && decodes(props[i].1, m@[i].1)
    }
    &&& r matches Err(e) ==> e == WMIError::UnsupportedValue
}

/// `r` is the outcome of decoding the declared `fields` from `props`.
pub open spec fn record_decoded(
    props: Seq<(String, RawValue)>,
    fields: Seq<Field>,
    r: Result<Vec<(String, Variant)>, WMIError>,
) -> bool {
    &&& r is Ok <==> forall|i: int| 0 <= i < fields.len() ==> field_ok(props, #[trigger] fields[i])
    &&& r matches Ok(m) ==> {
        &&& m@.len() == fields.len()
        &&& forall|i: int| 0 <= i < m@.len() ==> {
            &&& (#[trigger] m@[i]).0@ == fields[i].name@
            &&& lookup(props, fields[i].name@) matches Some(raw) && decodes(raw, m@[i].1)
            &&& fits(fields[i], m@[i].1)
        }
    }
    &&& r matches Err(e) ==> exists|i: int| 0 <= i < fields.len() && {
        &&& forall|j: int| 0 <= j < i ==> field_ok(props, #[trigger] fields[j])
        &&& field_error(props, #[trigger] fields[i], e)
    }
}

impl IWbemClassWrapper {
    pub fn new(props: Vec<(String, RawValue)>) -> (r: Self)
        ensures
            r.props == props,
    {
        IWbemClassWrapper { props }
    }

    /// The property names, in the provider's order.
    pub open spec fn names(&self) -> Seq<Seq<char>> {
        self.props@.map_values(|p: (String, RawValue)| p.0@)
    }

    /// Returns the names of all the properties, in the provider's order.
    pub fn list_properties(&self) -> (r: Vec<String>)
        ensures
            views(r@) == self.names(),
    {
        let mut out: Vec<String> = Vec::new();
        let mut i: usize = 0;
        while i < self.props.len()
            invariant
                i <= self.props.len(),
                views(out@) =~= self.names().take(i as int),
            decreases self.props.len() - i,
        {
            let ghost prev = out@;
            let n = self.props[i].0.clone();
            out.push(n);
            assert(views(out@) =~= views(prev).push(n@));
            i = i + 1;
        }
        assert(self.names().take(self.props.len() as int) =~= self.names());
        out
    }

    /// Looks up the first property named `name` and decodes its value.
    pub fn get_property(&self, name: &str) -> (r: Result<Variant, WMIError>)
        ensures
            match lookup(self.props@, name@) {
                None => r matches Err(e) && e is MissingProperty && e->MissingProperty_name@ == name@,
                Some(raw) => {
                    &&& r is Ok <==> decodable(raw)
                    &&& r matches Ok(v) ==> decodes(raw, v)
                    &&& r matches Err(e) ==> e == WMIError::UnsupportedValue
                },
            },
    {
        let key = String::from_str(name);
        let mut i: usize = 0;
        assert(self.props@.skip(0) =~= self.props@);
        while i < self.props.len()
            invariant
                i <= self.props.len(),
                key@ == name@,
                lookup(self.props@, name@) == lookup(self.props@.skip(i as int), name@),
            decreases self.props.len() - i,
        {
            assert(self.props@.skip(i as int).drop_first() =~= self.props@.skip(i + 1));
            assert(self.props@.skip(i as int)[0] == self.props@[i as int]);
            if self.props[i].0 == key {
                return decode_value(&self.props[i].1);
            }
            i = i + 1;
        }
        Err(WMIError::MissingProperty { name: key })
    }

    /// Decodes every property into a list of name and value, in the
    /// provider's order. Fails only on a value that does not decode.
    pub fn to_map(&self) -> (r: Result<Vec<(String, Variant)>, WMIError>)
        ensures
            map_decoded(self.props@, r),
    {
        let mut out: Vec<(String, Variant)> = Vec::new();
        let mut i: usize = 0;
        while i < self.props.len()
            invariant
                i <= self.props.len(),
                out@.len() == i,
                forall|k: int| 0 <= k < i ==> decodable(#[trigger] self.props@[k].1),
                forall|k: int| 0 <= k < i ==> (#[trigger] out@[k]).0@ == self.props@[k].0@
                    && decodes(self.props@[k].1, out@[k].1),
            decreases self.props.len() - i,
        {
            match decode_value(&self.props[i].1) {
                Ok(v) => {
                    let n = self.props[i].0.clone();
                    out.push((n, v));
                },
                Err(e) => {
                    return Err(e);
                },
            }
            i = i + 1;
        }
        Ok(out)
    }

    /// Decodes the declared fields of `schema`, in declared order, each
    /// from the first property of its name. Fails on the first field whose
    /// property is missing, does not decode, or does not fit the field;
    /// properties that no field names are ignored.
    pub fn to_record(&self, schema: &Schema) -> (r: Result<Vec<(String, Variant)>, WMIError>)
        ensures
            record_decoded(self.props@, schema.fields@, r),
    {
        let mut out: Vec<(String, Variant)> = Vec::new();
        let mut i: usize = 0;
        while i < schema.fields.len()
            invariant
                i <= schema.fields.len(),
                out@.len() == i,
                forall|k: int| 0 <= k < i ==> field_ok(self.props@, #[trigger] schema.fields@[k]),
                forall|k: int| 0 <= k < i ==> {
                    &&& (#[trigger] out@[k]).0@ == schema.fields@[k].name@
                    &&& lookup(self.props@, schema.fields@[k].name@) matches Some(raw) && decodes(raw, out@[k].1)
                    &&& fits(schema.fields@[k], out@[k].1)
                },
            decreases schema.fields.len() - i,
        {
            let f = &schema.fields[i];
            match self.get_property(f.name.as_str()) {
                Ok(v) => {
                    if !field_accepts(f, &v) {
                        return Err(WMIError::IncompatibleValue { name: f.name.clone() });
                    }
                    let n = f.name.clone();
                    out.push((n, v));
                },
                Err(e) => {
                    return Err(e);
                },
            }
            i = i + 1;
        }
        Ok(out)
    }
}

/// Whether the field accepts the decoded value.
pub fn field_accepts(f: &Field, v: &Variant) -> (r: bool)
    ensures
        r == fits(*f, *v),
{
    if f.nullable {
        match v {
            Variant::Empty | Variant::Null => {
                return true;
            },
            _ => {},
        }
    }
    match f.kind {
        FieldKind::Any => true,
        FieldKind::Bool => matches!(v, Variant::Bool(_)),
        FieldKind::Integer => matches!(v, Variant::I8(_)),
        FieldKind::Text => matches!(v, Variant::String(_)),
        FieldKind::Timestamp => matches!(v, Variant::Timestamp(_)),
        FieldKind::Array => matches!(v, Variant::Array(_)),
    }
}

} // verus!

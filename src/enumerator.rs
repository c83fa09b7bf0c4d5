//! Query execution outcomes, one-at-a-time result enumeration, and the
//! fail-fast collection of decoded results.
use vstd::prelude::*;
use crate::error::{failed, WMIError};
use crate::object::{map_decoded, record_decoded, IWbemClassWrapper};
use crate::query::Schema;
use crate::variant::{RawValue, Variant};

verus! {

/// The UTF-16 code units of a text.
pub uninterp spec fn utf16_of(s: Seq<char>) -> Seq<u16>;

/// Relies on `widestring::U16CString::from_str`: it encodes the text as
/// UTF-16 and fails exactly when a code unit is nul, which only the nul
/// character encodes to; the units are then taken with the terminating nul,
/// and the error is reduced to the nul's position.
#[verifier::external_body]
fn wide_from_str(s: &str) -> (r: Result<Vec<u16>, usize>)
    ensures
        r is Ok <==> !s@.contains('\0'),
        r matches Ok(v) ==> v@ == utf16_of(s@).push(0u16),
{
    widestring::U16CString::from_str(s).map(|w| w.into_vec_with_nul()).map_err(|e| e.nul_position())
}

/// Converts query text to the nul-terminated wide form that the provider
/// takes. Text holding a nul character is malformed.
pub fn query_to_wide(query: &str) -> (r: Result<Vec<u16>, WMIError>)
    ensures
        r is Ok <==> !query@.contains('\0'),
        r matches Ok(v) ==> v@ == utf16_of(query@).push(0u16),
        r matches Err(e) ==> e == WMIError::NulInQuery,
{
    match wide_from_str(query) {
        Ok(v) => Ok(v),
        Err(_) => Err(WMIError::NulInQuery),
    }
}

/// What the provider answered to one request for the next result.
pub enum NextResponse {
    /// The request failed with this status code.
    Failed(i32),
    /// No item was returned: the results are at their end.
    Done,
    /// One item was returned.
    Item(IWbemClassWrapper),
}

/// The state of a result cursor: active while it holds a live cursor
/// handle, exhausted once that handle is released or was never acquired.
pub struct QueryResultEnumerator {
    active: bool,
}

/// Whether a cursor in state `active` stays active after `resp`.
pub open spec fn next_active(active: bool, resp: NextResponse) -> bool {
    active && resp is Item
}

/// Whether a cursor in state `active` yields an item for `resp`.
pub open spec fn yields(active: bool, resp: NextResponse) -> bool {
    active && !(resp is Done)
}

/// The state of a cursor in state `active` after the responses `resps`.
pub open spec fn after(active: bool, resps: Seq<NextResponse>) -> bool
    decreases resps.len(),
{
    if resps.len() == 0 {
        active
    } else {
        next_active(after(active, resps.drop_last()), resps.last())
    }
}

impl QueryResultEnumerator {
    pub closed spec fn is_active_spec(&self) -> bool {
        self.active
    }

    /// The cursor for a query whose execution returned `hres`: active when
    /// it succeeded, else the execution error with that status code.
    pub fn from_exec_status(hres: i32) -> (r: Result<QueryResultEnumerator, WMIError>)
        ensures
            r is Ok <==> !failed(hres),
            r matches Ok(e) ==> e.is_active_spec(),
            r matches Err(e) ==> e == (WMIError::HResultError { hres }),
    {
        if hres < 0 {
            Err(WMIError::HResultError { hres })
        } else {
            Ok(QueryResultEnumerator { active: true })
        }
    }

    /// Whether the provider is still to be asked for the next item.
    #[verifier::when_used_as_spec(is_active_spec)]
    pub fn is_active(&self) -> (r: bool)
        ensures
            r == self.is_active_spec(),
    {
        self.active
    }

    /// Advances by one provider response. An active cursor yields the item,
    /// or the enumeration error with the status code, after which it is
    /// exhausted; an empty response exhausts it and yields nothing. An
    /// exhausted cursor yields nothing and stays exhausted.
    pub fn next(&mut self, resp: NextResponse) -> (r: Option<Result<IWbemClassWrapper, WMIError>>)
        ensures
            final(self).is_active_spec() == next_active(old(self).is_active_spec(), resp),
            r is Some <==> yields(old(self).is_active_spec(), resp),
            old(self).is_active_spec() ==> match resp {
                NextResponse::Failed(hres) => r == Some(Err::<IWbemClassWrapper, WMIError>(WMIError::EnumerationError { hres })),
                NextResponse::Done => r is None,
                NextResponse::Item(o) => r == Some(Ok::<IWbemClassWrapper, WMIError>(o)),
            },
    {
        if !self.active {
            return None;
        }
        match resp {
            NextResponse::Failed(hres) => {
                self.active = false;
                Some(Err(WMIError::EnumerationError { hres }))
            },
            NextResponse::Done => {
                self.active = false;
                None
            },
            NextResponse::Item(o) => Some(Ok(o)),
        }
    }

    /// Ends the enumeration. Returns whether the cursor handle is still
    /// held and is to be released now; afterwards the cursor is exhausted.
    pub fn close(&mut self) -> (release: bool)
        ensures
            release == old(self).is_active_spec(),
            !final(self).is_active_spec(),
    {
        let was = self.active;
        self.active = false;
        was
    }
}

/// Once the provider has answered with no item, a cursor yields nothing
/// more, whatever the later responses are.
pub proof fn lemma_done_is_final(active: bool, later: Seq<NextResponse>)
    ensures
        forall|i: int| 0 <= i < later.len() ==> !yields(
            after(next_active(active, NextResponse::Done), #[trigger] later.take(i)),
            later[i],
        ),
        !after(next_active(active, NextResponse::Done), later),
    decreases later.len(),
{
    if later.len() > 0 {
        lemma_done_is_final(active, later.drop_last());
        assert forall|i: int| 0 <= i < later.len() implies !yields(
            after(next_active(active, NextResponse::Done), #[trigger] later.take(i)),
            later[i],
        ) by {
            if i < later.len() - 1 {
                assert(later.take(i) =~= later.drop_last().take(i));
            } else {
                assert(later.take(i) =~= later.drop_last());
            }
        }
    }
}

/// A cursor handle is released at most once: once exhausted, a cursor stays
/// exhausted whatever the responses.
pub proof fn lemma_exhausted_stays(later: Seq<NextResponse>)
    ensures
        !after(false, later),
    decreases later.len(),
{
    if later.len() > 0 {
        lemma_exhausted_stays(later.drop_last());
    }
}

/// `r` is the outcome of decoding a result object with the properties
/// `props`: into a record of the schema's fields, or without a schema into a
/// mapping of every property.
pub open spec fn decoded(
    props: Seq<(String, RawValue)>,
    schema: Option<Schema>,
    r: Result<Vec<(String, Variant)>, WMIError>,
) -> bool {
    match schema {
        None => map_decoded(props, r),
        Some(s) => record_decoded(props, s.fields@, r),
    }
}

/// One run of a query: the cursor, the decoding that each item gets, the
/// items decoded so far, and the first failure. The run stops at its first
/// failure; a single bad item fails the whole query.
pub struct RawQuery {
    pub enumerator: QueryResultEnumerator,
    pub schema: Option<Schema>,
    pub rows: Vec<Vec<(String, Variant)>>,
    pub error: Option<WMIError>,
}

impl RawQuery {
    /// A run over a cursor whose query executed successfully.
    pub fn new(enumerator: QueryResultEnumerator, schema: Option<Schema>) -> (r: Self)
        ensures
            r.enumerator == enumerator,
            r.schema == schema,
            r.rows@.len() == 0,
            r.error is None,
    {
        RawQuery { enumerator, schema, rows: Vec::new(), error: None }
    }

    pub open spec fn wants_next_spec(&self) -> bool {
        self.enumerator.is_active_spec() && self.error is None
    }

    /// Whether the provider is to be asked for another item.
    #[verifier::when_used_as_spec(wants_next_spec)]
    pub fn wants_next(&self) -> (r: bool)
        ensures
            r == self.wants_next_spec(),
    {
        self.enumerator.is_active() && self.error.is_none()
    }

    fn decode_item(&self, o: &IWbemClassWrapper) -> (r: Result<Vec<(String, Variant)>, WMIError>)
        ensures
            decoded(o.props@, self.schema, r),
    {
        match &self.schema {
            None => o.to_map(),
            Some(s) => o.to_record(s),
        }
    }

    /// Takes one provider response. While the run goes on, an item is
    /// decoded and kept, or its decoding error ends the run; a failed
    /// request ends the run with the enumeration error; an empty response
    /// ends the enumeration. Once the run has stopped, nothing changes.
    pub fn feed(&mut self, resp: NextResponse)
        ensures
            final(self).schema == old(self).schema,
            !old(self).wants_next_spec() ==> {
                &&& final(self).rows@ == old(self).rows@
                &&& final(self).error == old(self).error
                &&& final(self).enumerator.is_active_spec() == old(self).enumerator.is_active_spec()
            },
            old(self).wants_next_spec() ==> match resp {
                NextResponse::Failed(hres) => {
                    &&& final(self).rows@ == old(self).rows@
                    &&& final(self).error == Some(WMIError::EnumerationError { hres })
                    &&& !final(self).enumerator.is_active_spec()
                },
                NextResponse::Done => {
                    &&& final(self).rows@ == old(self).rows@
                    &&& final(self).error is None
                    &&& !final(self).enumerator.is_active_spec()
                },
                NextResponse::Item(o) => {
                    &&& final(self).enumerator.is_active_spec()
                    &&& match final(self).error {
                        None => exists|row: Vec<(String, Variant)>| decoded(o.props@, old(self).schema, Ok(row))
                            && final(self).rows@ == old(self).rows@.push(row),
                        Some(e) => decoded(o.props@, old(self).schema, Err(e))
                            && final(self).rows@ == old(self).rows@,
                    }
                },
            },
    {
        if !self.wants_next() {
            return;
        }
        match self.enumerator.next(resp) {
            None => {},
            Some(Err(e)) => {
                self.error = Some(e);
            },
            Some(Ok(o)) => {
                match self.decode_item(&o) {
                    Ok(row) => {
                        self.rows.push(row);
                    },
                    Err(e) => {
                        self.error = Some(e);
                    },
                }
            },
        }
    }

    /// The outcome of the run: its first failure, or every decoded item in
    /// the order the provider returned them.
    pub fn finish(self) -> (r: Result<Vec<Vec<(String, Variant)>>, WMIError>)
        ensures
            match self.error {
                Some(e) => r == Err::<Vec<Vec<(String, Variant)>>, WMIError>(e),
                None => r matches Ok(rows) && rows@ == self.rows@,
            },
    {
        match self.error {
            Some(e) => Err(e),
            None => Ok(self.rows),
        }
    }
}

} // verus!

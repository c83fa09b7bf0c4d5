//! Query text for a record schema and an optional set of filters.
use vstd::prelude::*;
use vstd::relations::sorted_by;
use vstd::seq_lib::{group_to_multiset_ensures, lemma_sorted_unique, to_multiset_len, to_multiset_remove};
use vstd::multiset::group_multiset_axioms;
use vstd::string::*;
use crate::lex::{lemma_lex_total, lex_order, sort_strings, views};

verus! {

/// A value that a field is compared against in a `WHERE` condition.
pub enum FilterValue {
    Bool(bool),
    Number(i64),
    Str(&'static str),
    String(String),
}

/// What a record field accepts.
#[derive(Clone, Copy, PartialEq, Eq, Debug)]
pub enum FieldKind {
    /// Any decoded value.
    Any,
    Bool,
    Integer,
    Text,
    Timestamp,
    Array,
}

/// One declared field of a record type.
pub struct Field {
    pub name: String,
    pub kind: FieldKind,
    /// The field also accepts an empty or null value.
    pub nullable: bool,
}

/// The query target of a record type: the class name and its declared fields.
pub struct Schema {
    pub name: String,
    pub fields: Vec<Field>,
}

impl Schema {
    pub open spec fn field_names(&self) -> Seq<Seq<char>> {
        self.fields@.map_values(|f: Field| f.name@)
    }
}

pub open spec fn digit_text(d: nat) -> Seq<char> {
    if d == 0 { "0"@ } else if d == 1 { "1"@ } else if d == 2 { "2"@ } else if d == 3 { "3"@ }
    else if d == 4 { "4"@ } else if d == 5 { "5"@ } else if d == 6 { "6"@ } else if d == 7 { "7"@ }
    else if d == 8 { "8"@ } else { "9"@ }
}

/// Decimal digits of a natural number, most significant first.
pub open spec fn digits(n: nat) -> Seq<char>
    decreases n,
{
    if n < 10 {
        digit_text(n)
    } else {
        digits(n / 10) + digit_text(n % 10)
    }
}

/// Decimal rendering of an integer, with a leading `-` when negative.
pub open spec fn decimal(n: int) -> Seq<char> {
    if n < 0 { "-"@ + digits((-n) as nat) } else { digits(n as nat) }
}

/// The literal that a filter value renders as.
pub open spec fn literal(f: FilterValue) -> Seq<char> {
    match f {
        FilterValue::Bool(b) => if b { "true"@ } else { "false"@ },
        FilterValue::Number(n) => decimal(n as int),
        FilterValue::Str(s) => "\""@ + s@ + "\""@,
        FilterValue::String(s) => "\""@ + s@ + "\""@,
    }
}

/// The condition `field = literal`.
pub open spec fn condition(field: Seq<char>, f: FilterValue) -> Seq<char> {
    field + " = "@ + literal(f)
}

/// The conditions of a filter list, in the list's order.
pub open spec fn conditions(filters: Seq<(String, FilterValue)>) -> Seq<Seq<char>> {
    filters.map_values(|p: (String, FilterValue)| condition(p.0@, p.1))
}

/// The parts joined with `sep` between neighbours.
pub open spec fn join(parts: Seq<Seq<char>>, sep: Seq<char>) -> Seq<char>
    decreases parts.len(),
{
    if parts.len() == 0 {
        Seq::empty()
    } else if parts.len() == 1 {
        parts[0]
    } else {
        join(parts.drop_last(), sep) + sep + parts.last()
    }
}

/// The `WHERE` clause: empty without filters, else the conditions in
/// ascending lexicographic order joined by ` AND `.
pub open spec fn where_clause(filters: Option<Seq<(String, FilterValue)>>) -> Seq<char> {
    match filters {
        None => Seq::empty(),
        Some(fs) => if fs.len() == 0 {
            Seq::empty()
        } else {
            "WHERE "@ + join(conditions(fs).sort_by(lex_order()), " AND "@)
        },
    }
}

/// The full query text for a class name, its field names and the filters.
pub open spec fn query_text(
    name: Seq<char>,
    fields: Seq<Seq<char>>,
    filters: Option<Seq<(String, FilterValue)>>,
) -> Seq<char> {
    "SELECT "@ + join(fields, ","@) + " FROM "@ + name + " "@ + where_clause(filters)
}

fn digit_str(d: u64) -> (r: &'static str)
    requires
        d < 10,
    ensures
        r@ == digit_text(d as nat),
{
    if d == 0 { "0" } else if d == 1 { "1" } else if d == 2 { "2" } else if d == 3 { "3" }
    else if d == 4 { "4" } else if d == 5 { "5" } else if d == 6 { "6" } else if d == 7 { "7" }
    else if d == 8 { "8" } else { "9" }
}

fn push_digits(out: &mut String, m: u64)
    ensures
        final(out)@ == old(out)@ + digits(m as nat),
    decreases m,
{
    if m >= 10 {
        push_digits(out, m / 10);
    }
    let d = digit_str(m % 10);
    out.append(d);
    assert(final(out)@ =~= old(out)@ + digits(m as nat));
}

/// Renders an integer in decimal.
pub fn render_number(n: i64) -> (r: String)
    ensures
        r@ == decimal(n as int),
{
    let mut out = String::new();
    if n < 0 {
        out.append("-");
        let m: u64 = (0 - (n as i128)) as u64;
        push_digits(&mut out, m);
    } else {
        push_digits(&mut out, n as u64);
    }
    out
}

/// Renders the literal of a filter value: `true` / `false`, decimal digits,
/// or text wrapped in double quotes with nothing escaped.
pub fn render_literal(f: &FilterValue) -> (r: String)
    ensures
        r@ == literal(*f),
{
    match f {
        FilterValue::Bool(b) => {
            if *b {
                String::from_str("true")
            } else {
                String::from_str("false")
            }
        },
        FilterValue::Number(n) => render_number(*n),
        FilterValue::Str(s) => {
            let mut out = String::from_str("\"");
            out.append(s);
            out.append("\"");
            out
        },
        FilterValue::String(s) => {
            let mut out = String::from_str("\"");
            out.append(s.as_str());
            out.append("\"");
            out
        },
    }
}

/// Renders the condition `field = literal`.
pub fn render_condition(field: &str, f: &FilterValue) -> (r: String)
    ensures
        r@ == condition(field@, *f),
{
    let mut out = String::from_str(field);
    out.append(" = ");
    let lit = render_literal(f);
    out.append(lit.as_str());
    out
}

proof fn lemma_join_push(parts: Seq<Seq<char>>, sep: Seq<char>, i: int)
    requires
        0 <= i < parts.len(),
    ensures
        join(parts.take(i + 1), sep) == if i == 0 { parts[0] } else { join(parts.take(i), sep) + sep + parts[i] },
{
    assert(parts.take(i + 1).drop_last() =~= parts.take(i));
    if i == 0 {
        assert(parts.take(1) =~= seq![parts[0]]);
    }
}

/// Appends the parts joined with `sep`.
fn push_joined(out: &mut String, parts: &Vec<String>, sep: &str)
    ensures
        final(out)@ == old(out)@ + join(views(parts@), sep@),
{
    let ghost start = out@;
    let mut i: usize = 0;
    while i < parts.len()
        invariant
            i <= parts.len(),
            out@ == start + join(views(parts@).take(i as int), sep@),
        decreases parts.len() - i,
    {
        proof {
            lemma_join_push(views(parts@), sep@, i as int);
        }
        if i > 0 {
            out.append(sep);
        }
        out.append(parts[i].as_str());
        assert(out@ =~= start + join(views(parts@).take(i + 1), sep@));
        i = i + 1;
    }
    assert(views(parts@).take(parts.len() as int) =~= views(parts@));
}

/// The condition texts of the filters, sorted in ascending order.
fn sorted_conditions(filters: &Vec<(String, FilterValue)>) -> (r: Vec<String>)
    ensures
        views(r@) == conditions(filters@).sort_by(lex_order()),
{
    let mut conds: Vec<String> = Vec::new();
    let mut i: usize = 0;
    while i < filters.len()
        invariant
            i <= filters.len(),
            views(conds@) =~= conditions(filters@).take(i as int),
        decreases filters.len() - i,
    {
        let c = render_condition(filters[i].0.as_str(), &filters[i].1);
        let ghost prev = conds@;
        conds.push(c);
        assert(views(conds@) =~= views(prev).push(c@));
        i = i + 1;
    }
    sort_strings(&mut conds);
    proof {
        assert(conditions(filters@).take(filters.len() as int) =~= conditions(filters@));
        lemma_lex_total();
        conditions(filters@).lemma_sort_by_ensures(lex_order());
        lemma_sorted_unique(views(conds@), conditions(filters@).sort_by(lex_order()), lex_order());
    }
    conds
}

/// Builds the query text for `schema`: the field names joined by `,` in
/// declared order, then the class name, then a space, then the `WHERE`
/// clause, which is empty without filters and otherwise joins the rendered
/// conditions, sorted lexicographically, with ` AND `.
pub fn build_query(schema: &Schema, filters: Option<&Vec<(String, FilterValue)>>) -> (r: String)
    ensures
        r@ == query_text(
            schema.name@,
            schema.field_names(),
            match filters {
                None => None,
                Some(fs) => Some(fs@),
            },
        ),
{
    let mut names: Vec<String> = Vec::new();
    let mut i: usize = 0;
    while i < schema.fields.len()
        invariant
            i <= schema.fields.len(),
            views(names@) =~= schema.field_names().take(i as int),
        decreases schema.fields.len() - i,
    {
        let ghost prev = names@;
        let n = schema.fields[i].name.clone();
        names.push(n);
        assert(views(names@) =~= views(prev).push(n@));
        i = i + 1;
    }
    assert(schema.field_names().take(schema.fields.len() as int) =~= schema.field_names());
    let mut out = String::from_str("SELECT ");
    push_joined(&mut out, &names, ",");
    out.append(" FROM ");
    out.append(schema.name.as_str());
    out.append(" ");
    match filters {
        None => {},
        Some(fs) => {
            if fs.len() > 0 {
                let conds = sorted_conditions(fs);
                out.append("WHERE ");
                push_joined(&mut out, &conds, " AND ");
            }
        },
    }
    out
}

proof fn lemma_conditions_multiset(a: Seq<(String, FilterValue)>, b: Seq<(String, FilterValue)>)
    requires
        a.to_multiset() == b.to_multiset(),
    ensures
        conditions(a).to_multiset() == conditions(b).to_multiset(),
    decreases a.len(),
{
    broadcast use group_to_multiset_ensures, group_multiset_axioms;

    if a.len() == 0 {
        to_multiset_len(a);
        to_multiset_len(b);
        assert(b.len() == 0);
        assert(conditions(a) =~= conditions(b));
    } else {
        let x = a.last();
        let a1 = a.drop_last();
        assert(a =~= a1.push(x));
        assert(a.to_multiset().contains(x));
        assert(b.contains(x));
        let j = choose|j: int| 0 <= j < b.len() && b[j] == x;
        let b1 = b.remove(j);
        to_multiset_remove(b, j);
        assert(a1.to_multiset() =~= a.to_multiset().remove(x));
        lemma_conditions_multiset(a1, b1);
        let cx = condition(x.0@, x.1);
        assert(conditions(a) =~= conditions(a1).push(cx));
        assert(conditions(b1) =~= conditions(b).remove(j));
        to_multiset_remove(conditions(b), j);
        assert(conditions(b).to_multiset().contains(cx)) by {
            assert(conditions(b)[j] == cx);
        }
        assert(conditions(a).to_multiset() =~= conditions(b).to_multiset());
    }
}

/// The query text does not depend on the order in which the filters are
/// listed: two lists holding the same entries give the same text, and its
/// conditions stand in ascending lexicographic order.
pub proof fn lemma_filter_order_irrelevant(
    name: Seq<char>,
    fields: Seq<Seq<char>>,
    a: Seq<(String, FilterValue)>,
    b: Seq<(String, FilterValue)>,
)
    requires
        a.to_multiset() == b.to_multiset(),
    ensures
        query_text(name, fields, Some(a)) == query_text(name, fields, Some(b)),
        sorted_by(conditions(a).sort_by(lex_order()), lex_order()),
{
    broadcast use group_to_multiset_ensures;

    lemma_conditions_multiset(a, b);
    lemma_lex_total();
    conditions(a).lemma_sort_by_ensures(lex_order());
    conditions(b).lemma_sort_by_ensures(lex_order());
    lemma_sorted_unique(
        conditions(a).sort_by(lex_order()),
        conditions(b).sort_by(lex_order()),
        lex_order(),
    );
    to_multiset_len(a);
    to_multiset_len(b);
    assert(a.len() == b.len());
}

/// Without filters, or with an empty filter list, the query text has no
/// `WHERE` clause: it ends right after the class name and one space.
pub proof fn lemma_no_filters_no_where(name: Seq<char>, fields: Seq<Seq<char>>)
    ensures
        query_text(name, fields, None) == "SELECT "@ + join(fields, ","@) + " FROM "@ + name + " "@,
        query_text(name, fields, Some(Seq::empty())) == query_text(name, fields, None),
{
    assert(query_text(name, fields, None) =~= "SELECT "@ + join(fields, ","@) + " FROM "@ + name + " "@);
}

} // verus!

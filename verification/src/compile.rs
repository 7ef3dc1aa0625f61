//! The query compiler: validated clauses and a pagination directive become a
//! parameterised query. Every piece of query text comes from a literal of
//! this crate; every caller-supplied literal travels as a bound parameter.

use vstd::prelude::*;
use vstd::string::StringExecFns;
use crate::filter::ValidatedClause;
use crate::model::input::PageKind;

verus! {

/// The number of rows a page holds at most.
pub const PAGE_SIZE: usize = 100;

/// The projection and the base predicate that every query starts with. User
/// clauses are joined to it with `AND` and so can only narrow it.
pub const BASE_QUERY: &'static str =
    "select discoverymethod as discovery_method, releasedate as release_date, * from exoplanet_data WHERE default_flag = true";

/// A value bound to a placeholder of the query.
#[derive(Debug, PartialEq, Eq)]
pub enum BoundValue {
    Text(String),
    Integer(i64),
}

/// What a bound value holds.
pub enum Bound {
    Text(Seq<char>),
    Integer(i64),
}

impl View for BoundValue {
    type V = Bound;

    open spec fn view(&self) -> Bound {
        match self {
            BoundValue::Text(s) => Bound::Text(s@),
            BoundValue::Integer(n) => Bound::Integer(*n),
        }
    }
}

impl Clone for BoundValue {
    fn clone(&self) -> (copy: BoundValue)
        ensures
            copy == *self,
    {
        match self {
            BoundValue::Text(s) => BoundValue::Text(s.clone()),
            BoundValue::Integer(n) => BoundValue::Integer(*n),
        }
    }
}

/// One piece of a compiled predicate: fixed query text, or a placeholder with
/// the value bound to it.
#[derive(Debug, PartialEq, Eq)]
pub enum Fragment {
    Sql(&'static str),
    Bind(BoundValue),
}

impl Fragment {
    /// The query text of this piece: a bound value shows as `?` only.
    pub open spec fn text(self) -> Seq<char> {
        match self {
            Fragment::Sql(s) => s@,
            Fragment::Bind(_) => "?"@,
        }
    }

    /// The values this piece binds.
    pub open spec fn binds(self) -> Seq<Bound> {
        match self {
            Fragment::Sql(_) => Seq::empty(),
            Fragment::Bind(v) => seq![v@],
        }
    }
}

/// The order in which the store is asked to return rows, by identifier.
#[derive(Debug, Clone, Copy, PartialEq, Eq, Structural)]
pub enum SortOrder {
    Ascending,
    Descending,
}

impl SortOrder {
    /// The ordering and limit clause that ends the query text.
    pub open spec fn clause(self) -> Seq<char> {
        match self {
            SortOrder::Ascending => " ORDER BY id LIMIT 100;"@,
            SortOrder::Descending => " ORDER BY id DESC LIMIT 100;"@,
        }
    }

    /// The ordering and limit clause that ends the query text.
    pub fn tail(&self) -> (tail: &'static str)
        ensures
            tail@ == self.clause(),
    {
        match self {
            SortOrder::Ascending => " ORDER BY id LIMIT 100;",
            SortOrder::Descending => " ORDER BY id DESC LIMIT 100;",
        }
    }
}

/// The decimal digit for a number below ten.
pub open spec fn digit(d: nat) -> char {
    "0123456789"@[d as int]
}

/// A number written in decimal digits.
pub open spec fn decimal(n: nat) -> Seq<char>
    decreases n,
{
    if n < 10 {
        seq![digit(n)]
    } else {
        decimal(n / 10).push(digit(n % 10))
    }
}

/// The limit written into every query is `PAGE_SIZE`.
pub proof fn lemma_limit_is_page_size(order: SortOrder)
    ensures
        order.clause() == match order {
            SortOrder::Ascending => " ORDER BY id"@,
            SortOrder::Descending => " ORDER BY id DESC"@,
        } + " LIMIT "@ + decimal(PAGE_SIZE as nat) + ";"@,
{
    reveal_strlit("0123456789");
    reveal_strlit(" ORDER BY id LIMIT 100;");
    reveal_strlit(" ORDER BY id DESC LIMIT 100;");
    reveal_strlit(" ORDER BY id");
    reveal_strlit(" ORDER BY id DESC");
    reveal_strlit(" LIMIT ");
    reveal_strlit(";");
    reveal_with_fuel(decimal, 3);
    assert(decimal(100) =~= seq!['1', '0', '0']);
    match order {
        SortOrder::Ascending => {
            assert(order.clause() =~= " ORDER BY id"@ + " LIMIT "@ + decimal(100) + ";"@);
        },
        SortOrder::Descending => {
            assert(order.clause() =~= " ORDER BY id DESC"@ + " LIMIT "@ + decimal(100) + ";"@);
        },
    }
}

/// The query text of a run of fragments, in order.
pub open spec fn fragments_text(fragments: Seq<Fragment>) -> Seq<char>
    decreases fragments.len(),
{
    if fragments.len() == 0 {
        Seq::empty()
    } else {
        fragments_text(fragments.drop_last()) + fragments.last().text()
    }
}

/// The values bound by a run of fragments, in order.
pub open spec fn fragments_binds(fragments: Seq<Fragment>) -> Seq<Bound>
    decreases fragments.len(),
{
    if fragments.len() == 0 {
        Seq::empty()
    } else {
        fragments_binds(fragments.drop_last()) + fragments.last().binds()
    }
}

/// A query ready for execution: the predicate as fragments, and the order in
/// which rows are wanted. The limit is always `PAGE_SIZE`.
#[derive(Debug, PartialEq, Eq)]
pub struct CompiledQuery {
    pub fragments: Vec<Fragment>,
    pub order: SortOrder,
}

impl CompiledQuery {
    /// The full query text, with `?` wherever a value is bound.
    pub open spec fn text(self) -> Seq<char> {
        fragments_text(self.fragments@) + self.order.clause()
    }

    /// The bound values, in the order of their placeholders.
    pub open spec fn binds(self) -> Seq<Bound> {
        fragments_binds(self.fragments@)
    }

    /// Renders the query text.
    pub fn sql(&self) -> (sql: String)
        ensures
            sql@ == self.text(),
    {
        let mut sql = String::new();
        let mut i: usize = 0;
        while i < self.fragments.len()
            invariant
                i <= self.fragments@.len(),
                sql@ == fragments_text(self.fragments@.take(i as int)),
            decreases self.fragments@.len() - i,
        {
            match &self.fragments[i] {
                Fragment::Sql(text) => sql.append(text),
                Fragment::Bind(_) => sql.append("?"),
            }
            proof {
                assert(self.fragments@.take(i + 1).drop_last() =~= self.fragments@.take(i as int));
            }
            i += 1;
        }
        proof {
            assert(self.fragments@.take(i as int) =~= self.fragments@);
        }
        sql.append(self.order.tail());
        sql
    }

    /// Copies out the bound values, in the order of their placeholders.
    pub fn params(&self) -> (params: Vec<BoundValue>)
        ensures
            views(params@) == self.binds(),
    {
        let mut params: Vec<BoundValue> = Vec::new();
        let mut i: usize = 0;
        while i < self.fragments.len()
            invariant
                i <= self.fragments@.len(),
                views(params@) == fragments_binds(self.fragments@.take(i as int)),
            decreases self.fragments@.len() - i,
        {
            let ghost before = params@;
            match &self.fragments[i] {
                Fragment::Sql(_) => {},
                Fragment::Bind(value) => {
                    params.push(value.clone());
                },
            }
            proof {
                assert(self.fragments@.take(i + 1).drop_last() =~= self.fragments@.take(i as int));
                assert(views(params@) =~= views(before) + self.fragments@[i as int].binds());
            }
            i += 1;
        }
        proof {
            assert(self.fragments@.take(i as int) =~= self.fragments@);
        }
        params
    }
}

/// What a run of bound values holds, value by value.
pub open spec fn views(values: Seq<BoundValue>) -> Seq<Bound> {
    values.map_values(|v: BoundValue| v@)
}

/// The anchor a request pages from: a negative one cannot belong to a row and
/// stands for the first page.
pub open spec fn clamped(anchor_id: i64) -> i64 {
    if anchor_id < 0 {
        0
    } else {
        anchor_id
    }
}

/// The order in which rows are fetched for a direction.
pub open spec fn order_of(kind: PageKind) -> SortOrder {
    match kind {
        PageKind::Next => SortOrder::Ascending,
        PageKind::Prev => SortOrder::Descending,
    }
}

/// The keyset boundary: rows strictly beyond the anchor, on the side the
/// direction names.
pub open spec fn boundary_text(kind: PageKind) -> Seq<char> {
    match kind {
        PageKind::Next => " AND id > "@ + "?"@,
        PageKind::Prev => " AND id < "@ + "?"@,
    }
}

/// The predicate of one clause: its literal is a placeholder.
pub open spec fn clause_text(clause: ValidatedClause) -> Seq<char> {
    " AND "@ + clause.field().name() + " "@ + clause.comparison().token() + " "@ + "?"@
}

/// The predicates of the clauses, in input order.
pub open spec fn filters_text(clauses: Seq<ValidatedClause>) -> Seq<char>
    decreases clauses.len(),
{
    if clauses.len() == 0 {
        Seq::empty()
    } else {
        filters_text(clauses.drop_last()) + clause_text(clauses.last())
    }
}

/// The literals of the clauses, in input order, each as a text value.
pub open spec fn filters_binds(clauses: Seq<ValidatedClause>) -> Seq<Bound> {
    Seq::new(clauses.len(), |i: int| Bound::Text(clauses[i].comparison().literal()@))
}

/// The text of the query for a request: base predicate, clauses, boundary,
/// order and limit.
pub open spec fn query_text(clauses: Seq<ValidatedClause>, kind: PageKind) -> Seq<char> {
    BASE_QUERY@ + filters_text(clauses) + boundary_text(kind) + order_of(kind).clause()
}

/// The values of the query for a request: the clause literals, then the
/// anchor.
pub open spec fn query_binds(clauses: Seq<ValidatedClause>, anchor_id: i64) -> Seq<Bound> {
    filters_binds(clauses).push(Bound::Integer(clamped(anchor_id)))
}

proof fn lemma_fragments_push(fragments: Seq<Fragment>, fragment: Fragment)
    ensures
        fragments_text(fragments.push(fragment)) == fragments_text(fragments) + fragment.text(),
        fragments_binds(fragments.push(fragment)) == fragments_binds(fragments) + fragment.binds(),
{
    assert(fragments.push(fragment).drop_last() =~= fragments);
}

/// Appends fixed query text.
fn push_sql(fragments: &mut Vec<Fragment>, text: &'static str)
    ensures
        fragments_text(final(fragments)@) == fragments_text(old(fragments)@) + text@,
        fragments_binds(final(fragments)@) == fragments_binds(old(fragments)@),
{
    fragments.push(Fragment::Sql(text));
    proof {
        lemma_fragments_push(old(fragments)@, Fragment::Sql(text));
        assert(fragments_binds(old(fragments)@) + Seq::<Bound>::empty() =~= fragments_binds(
            old(fragments)@,
        ));
    }
}

/// Appends a placeholder and binds a value to it.
fn push_bind(fragments: &mut Vec<Fragment>, value: BoundValue)
    ensures
        fragments_text(final(fragments)@) == fragments_text(old(fragments)@) + "?"@,
        fragments_binds(final(fragments)@) == fragments_binds(old(fragments)@).push(value@),
{
    fragments.push(Fragment::Bind(value));
    proof {
        lemma_fragments_push(old(fragments)@, Fragment::Bind(value));
        assert(fragments_binds(old(fragments)@) + seq![value@] =~= fragments_binds(
            old(fragments)@,
        ).push(value@));
    }
}

/// Appends the predicate of one clause.
fn push_clause(fragments: &mut Vec<Fragment>, clause: &ValidatedClause)
    ensures
        fragments_text(final(fragments)@) == fragments_text(old(fragments)@) + clause_text(*clause),
        fragments_binds(final(fragments)@) == fragments_binds(old(fragments)@).push(
            Bound::Text(clause.comparison().literal()@),
        ),
{
    push_sql(fragments, " AND ");
    push_sql(fragments, clause.field().column());
    push_sql(fragments, " ");
    push_sql(fragments, clause.comparison().symbol());
    push_sql(fragments, " ");
    push_bind(fragments, BoundValue::Text(clause.comparison().operand().clone()));
    proof {
        assert(fragments_text(fragments@) =~= fragments_text(old(fragments)@) + clause_text(
            *clause,
        ));
    }
}

/// Compiles a request. The clause predicates follow the base predicate in
/// input order, then the keyset boundary; `Next` asks for ascending rows,
/// `Prev` for descending ones. A negative anchor is taken as `0`.
pub fn compile(clauses: Vec<ValidatedClause>, anchor_id: i64, page_direction: PageKind) -> (query:
    CompiledQuery)
    ensures
        query.text() == query_text(clauses@, page_direction),
        query.binds() == query_binds(clauses@, anchor_id),
        query.order == order_of(page_direction),
{
    let mut fragments: Vec<Fragment> = Vec::new();
    push_sql(&mut fragments, BASE_QUERY);
    proof {
        assert(fragments_text(fragments@) =~= BASE_QUERY@ + filters_text(clauses@.take(0)));
        assert(fragments_binds(fragments@) =~= filters_binds(clauses@.take(0)));
    }
    let mut i: usize = 0;
    while i < clauses.len()
        invariant
            i <= clauses@.len(),
            fragments_text(fragments@) == BASE_QUERY@ + filters_text(clauses@.take(i as int)),
            fragments_binds(fragments@) == filters_binds(clauses@.take(i as int)),
        decreases clauses@.len() - i,
    {
        push_clause(&mut fragments, &clauses[i]);
        proof {
            let done = clauses@.take(i as int);
            let next = clauses@.take(i + 1);
            assert(next.drop_last() =~= done);
            assert(next.last() == clauses@[i as int]);
            assert(fragments_text(fragments@) =~= BASE_QUERY@ + filters_text(next));
            assert(fragments_binds(fragments@) =~= filters_binds(next));
        }
        i += 1;
    }
    let anchor = if anchor_id < 0 { 0 } else { anchor_id };
    match page_direction {
        PageKind::Next => push_sql(&mut fragments, " AND id > "),
        PageKind::Prev => push_sql(&mut fragments, " AND id < "),
    }
    push_bind(&mut fragments, BoundValue::Integer(anchor));
    let order = match page_direction {
        PageKind::Next => SortOrder::Ascending,
        PageKind::Prev => SortOrder::Descending,
    };
    let query = CompiledQuery { fragments, order };
    proof {
        assert(clauses@.take(i as int) =~= clauses@);
        assert(query.text() =~= query_text(clauses@, page_direction));
    }
    query
}

/// The query text is a function of the fields, the operator tokens and the
/// direction alone: requests that differ in nothing but their literals, or
/// their anchors, compile to the same text, whatever characters the literals
/// hold.
pub proof fn lemma_text_ignores_literals(
    a: Seq<ValidatedClause>,
    b: Seq<ValidatedClause>,
    kind: PageKind,
)
    requires
        a.len() == b.len(),
        forall|i: int|
            0 <= i < a.len() ==> (#[trigger] a[i]).field() == b[i].field()
                && a[i].comparison().token() == b[i].comparison().token(),
    ensures
        query_text(a, kind) == query_text(b, kind),
{
    lemma_filters_text_ignores_literals(a, b);
}

proof fn lemma_filters_text_ignores_literals(a: Seq<ValidatedClause>, b: Seq<ValidatedClause>)
    requires
        a.len() == b.len(),
        forall|i: int|
            0 <= i < a.len() ==> (#[trigger] a[i]).field() == b[i].field()
                && a[i].comparison().token() == b[i].comparison().token(),
    ensures
        filters_text(a) == filters_text(b),
    decreases a.len(),
{
    if a.len() > 0 {
        assert(a.last() == a[a.len() - 1]);
        lemma_filters_text_ignores_literals(a.drop_last(), b.drop_last());
    }
}

/// Every literal is bound exactly as the clause holds it, in clause order,
/// and the anchor is bound last.
pub proof fn lemma_literals_are_bound(clauses: Seq<ValidatedClause>, anchor_id: i64)
    ensures
        query_binds(clauses, anchor_id).len() == clauses.len() + 1,
        forall|i: int|
            0 <= i < clauses.len() ==> #[trigger] query_binds(clauses, anchor_id)[i] == Bound::Text(
                clauses[i].comparison().literal()@,
            ),
        query_binds(clauses, anchor_id)[clauses.len() as int] == Bound::Integer(clamped(anchor_id)),
{
}

/// A request without clauses compiles to the base predicate and the keyset
/// boundary, with the anchor as its only bound value.
pub proof fn lemma_empty_request(anchor_id: i64, kind: PageKind)
    ensures
        query_text(Seq::empty(), kind) == BASE_QUERY@ + boundary_text(kind) + order_of(
            kind,
        ).clause(),
        query_binds(Seq::empty(), anchor_id) == seq![Bound::Integer(clamped(anchor_id))],
{
    assert(query_text(Seq::empty(), kind) =~= BASE_QUERY@ + boundary_text(kind) + order_of(
        kind,
    ).clause());
    assert(query_binds(Seq::empty(), anchor_id) =~= seq![Bound::Integer(clamped(anchor_id))]);
}

/// The number of placeholders in a query text.
pub open spec fn placeholders(text: Seq<char>) -> nat
    decreases text.len(),
{
    if text.len() == 0 {
        0
    } else {
        placeholders(text.drop_last()) + if text.last() == '?' {
            1nat
        } else {
            0nat
        }
    }
}

proof fn lemma_placeholders_add(a: Seq<char>, b: Seq<char>)
    ensures
        placeholders(a + b) == placeholders(a) + placeholders(b),
    decreases b.len(),
{
    if b.len() == 0 {
        assert(a + b =~= a);
    } else {
        assert((a + b).drop_last() =~= a + b.drop_last());
        lemma_placeholders_add(a, b.drop_last());
    }
}

proof fn lemma_placeholders_none(text: Seq<char>)
    requires
        forall|i: int| 0 <= i < text.len() ==> text[i] != '?',
    ensures
        placeholders(text) == 0,
    decreases text.len(),
{
    if text.len() > 0 {
        lemma_placeholders_none(text.drop_last());
    }
}

proof fn lemma_fixed_text_has_no_placeholder(clause: ValidatedClause, kind: PageKind)
    ensures
        placeholders(BASE_QUERY@) == 0,
        placeholders(" AND "@) == 0,
        placeholders(" "@) == 0,
        placeholders("?"@) == 1,
        placeholders(clause.field().name()) == 0,
        placeholders(clause.comparison().token()) == 0,
        placeholders(boundary_text(kind)) == 1,
        placeholders(order_of(kind).clause()) == 0,
{
    reveal_strlit(
        "select discoverymethod as discovery_method, releasedate as release_date, * from exoplanet_data WHERE default_flag = true",
    );
    reveal_strlit(" AND ");
    reveal_strlit(" ");
    reveal_strlit("?");
    reveal_strlit("pl_name");
    reveal_strlit("hostname");
    reveal_strlit("sy_snum");
    reveal_strlit("sy_pnum");
    reveal_strlit("sy_mnum");
    reveal_strlit("cb_flag");
    reveal_strlit("discovery_method");
    reveal_strlit("disc_year");
    reveal_strlit("disc_refname");
    reveal_strlit("disc_pubdate");
    reveal_strlit("<");
    reveal_strlit(">");
    reveal_strlit("=");
    reveal_strlit("!=");
    reveal_strlit("<=");
    reveal_strlit(">=");
    reveal_strlit("");
    reveal_strlit(" AND id > ");
    reveal_strlit(" AND id < ");
    reveal_strlit(" ORDER BY id LIMIT 100;");
    reveal_strlit(" ORDER BY id DESC LIMIT 100;");
    lemma_placeholders_none(BASE_QUERY@);
    lemma_placeholders_none(" AND "@);
    lemma_placeholders_none(" "@);
    lemma_placeholders_none(clause.field().name());
    lemma_placeholders_none(clause.comparison().token());
    lemma_placeholders_none(order_of(kind).clause());
    assert("?"@.last() == '?');
    lemma_placeholders_none("?"@.drop_last());
    match kind {
        PageKind::Next => {
            lemma_placeholders_none(" AND id > "@);
            lemma_placeholders_add(" AND id > "@, "?"@);
        },
        PageKind::Prev => {
            lemma_placeholders_none(" AND id < "@);
            lemma_placeholders_add(" AND id < "@, "?"@);
        },
    }
}

proof fn lemma_filters_placeholders(clauses: Seq<ValidatedClause>)
    ensures
        placeholders(filters_text(clauses)) == clauses.len(),
    decreases clauses.len(),
{
    if clauses.len() > 0 {
        let clause = clauses.last();
        lemma_filters_placeholders(clauses.drop_last());
        lemma_fixed_text_has_no_placeholder(clause, PageKind::Next);
        let name = clause.field().name();
        let token = clause.comparison().token();
        lemma_placeholders_add(" AND "@, name);
        lemma_placeholders_add(" AND "@ + name, " "@);
        lemma_placeholders_add(" AND "@ + name + " "@, token);
        lemma_placeholders_add(" AND "@ + name + " "@ + token, " "@);
        lemma_placeholders_add(" AND "@ + name + " "@ + token + " "@, "?"@);
        lemma_placeholders_add(filters_text(clauses.drop_last()), clause_text(clause));
    }
}

/// Every placeholder has its value and every value its placeholder: the
/// query text of a request holds as many placeholders as the request binds
/// values, one per clause and one for the anchor.
pub proof fn lemma_placeholders_match_binds(
    clauses: Seq<ValidatedClause>,
    anchor_id: i64,
    kind: PageKind,
)
    ensures
        placeholders(query_text(clauses, kind)) == query_binds(clauses, anchor_id).len(),
        query_binds(clauses, anchor_id).len() == clauses.len() + 1,
{
    lemma_filters_placeholders(clauses);
    lemma_fixed_text_has_no_placeholder(arbitrary(), kind);
    lemma_placeholders_add(BASE_QUERY@, filters_text(clauses));
    lemma_placeholders_add(BASE_QUERY@ + filters_text(clauses), boundary_text(kind));
    lemma_placeholders_add(
        BASE_QUERY@ + filters_text(clauses) + boundary_text(kind),
        order_of(kind).clause(),
    );
}

} // verus!

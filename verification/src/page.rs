//! The keyset paginator: which way fetched rows are ordered, how they are
//! brought back into ascending order, and which identifiers anchor the
//! neighbouring pages.

use vstd::prelude::*;
use vstd::multiset::{group_multiset_axioms, Multiset};
use vstd::seq_lib::{to_multiset_build, to_multiset_insert};
use crate::compile::PAGE_SIZE;
use crate::model::data::{Data, PlanetData};
use crate::model::input::PageKind;

verus! {

/// Whether rows are in ascending order of identifier.
pub open spec fn ascending(rows: Seq<PlanetData>) -> bool {
    forall|i: int, j: int| 0 <= i <= j < rows.len() ==> rows[i].id <= rows[j].id
}

/// Whether rows are in descending order of identifier.
pub open spec fn descending(rows: Seq<PlanetData>) -> bool {
    forall|i: int, j: int| 0 <= i <= j < rows.len() ==> rows[i].id >= rows[j].id
}

/// Whether no two rows share an identifier.
pub open spec fn distinct_ids(rows: Seq<PlanetData>) -> bool {
    forall|i: int, j: int| 0 <= i < j < rows.len() ==> rows[i].id != rows[j].id
}

/// Whether rows are what a query for the given direction asks of the store:
/// no more than a page of them, ascending for `Next`, descending for `Prev`.
pub open spec fn honours(rows: Seq<PlanetData>, kind: PageKind) -> bool {
    &&& rows.len() <= PAGE_SIZE
    &&& match kind {
        PageKind::Next => ascending(rows),
        PageKind::Prev => descending(rows),
    }
}

proof fn lemma_no_rows(rows: Seq<PlanetData>)
    requires
        rows.len() == 0,
    ensures
        rows.to_multiset() == Multiset::<PlanetData>::empty(),
{
    broadcast use group_multiset_axioms;

    rows.to_multiset_ensures();
    assert forall|row: PlanetData| rows.to_multiset().count(row) == 0 by {
        assert(!rows.contains(row));
    }
    assert(rows.to_multiset() =~= Multiset::<PlanetData>::empty());
}

/// Sorts rows ascending by identifier. Rows that arrive descending, as those
/// of a `Prev` query do, take one step each.
pub fn sort_by_id(rows: Vec<PlanetData>) -> (sorted: Vec<PlanetData>)
    ensures
        ascending(sorted@),
        sorted@.to_multiset() == rows@.to_multiset(),
{
    let mut rest = rows;
    let mut sorted: Vec<PlanetData> = Vec::new();
    proof {
        broadcast use group_multiset_axioms;

        lemma_no_rows(sorted@);
        assert(sorted@.to_multiset().add(rest@.to_multiset()) =~= rows@.to_multiset());
    }
    while rest.len() > 0
        invariant
            ascending(sorted@),
            sorted@.to_multiset().add(rest@.to_multiset()) == rows@.to_multiset(),
        decreases rest@.len(),
    {
        let ghost rest_before = rest@;
        let ghost sorted_before = sorted@;
        let row = rest.pop().unwrap();
        let mut at: usize = sorted.len();
        while at > 0 && sorted[at - 1].id > row.id
            invariant
                at <= sorted@.len(),
                forall|k: int| at <= k < sorted@.len() ==> sorted@[k].id > row.id,
            decreases at,
        {
            at -= 1;
        }
        sorted.insert(at, row);
        proof {
            assert(rest_before =~= rest@.push(row));
            to_multiset_build(rest@, row);
            to_multiset_insert(sorted_before, at as int, row);
            assert(sorted@.to_multiset().add(rest@.to_multiset()) =~= sorted_before.to_multiset().add(
                rest_before.to_multiset(),
            ));
            assert forall|i: int, j: int| 0 <= i <= j < sorted@.len() implies sorted@[i].id
                <= sorted@[j].id by {
                let a = if i < at { i } else { i - 1 };
                let b = if j < at { j } else { j - 1 };
                if i != at && j != at {
                    assert(sorted@[i] == sorted_before[a]);
                    assert(sorted@[j] == sorted_before[b]);
                } else if i == at && j != at {
                    assert(sorted@[j] == sorted_before[b]);
                } else if i != at && j == at {
                    assert(sorted@[i] == sorted_before[a]);
                    if at > 0 {
                        assert(sorted_before[a].id <= sorted_before[at - 1].id);
                    }
                }
            }
        }
    }
    proof {
        broadcast use group_multiset_axioms;

        lemma_no_rows(rest@);
        assert(sorted@.to_multiset().add(rest@.to_multiset()) =~= sorted@.to_multiset());
    }
    sorted
}

/// Whether `page` is the page of the fetched rows `raw` for the given
/// direction. Rows of a `Next` query are kept as they came; rows of a `Prev`
/// query are sorted ascending. The anchors are read off the rows as fetched:
/// for `Next` the first and the last, for `Prev` the other way round, since
/// there the first row fetched is the one nearest the anchor.
pub open spec fn is_page_of(page: Data, raw: Seq<PlanetData>, kind: PageKind) -> bool {
    &&& raw.len() > 0
    &&& match kind {
        PageKind::Next => {
            &&& page.planet_data@ == raw
            &&& page.first_id == raw.first().id
            &&& page.last_id == raw.last().id
        },
        PageKind::Prev => {
            &&& ascending(page.planet_data@)
            &&& page.planet_data@.to_multiset() == raw.to_multiset()
            &&& page.first_id == raw.last().id
            &&& page.last_id == raw.first().id
        },
    }
}

/// Assembles the page of the rows a query brought back. No rows, no page:
/// a caller never sees a page without anchors.
pub fn assemble(raw_rows: Vec<PlanetData>, page_direction: PageKind) -> (page: Option<Data>)
    ensures
        page is None <==> raw_rows@.len() == 0,
        page matches Some(data) ==> is_page_of(data, raw_rows@, page_direction),
{
    if raw_rows.len() == 0 {
        return None;
    }
    let nearest = raw_rows[0].id;
    let farthest = raw_rows[raw_rows.len() - 1].id;
    match page_direction {
        PageKind::Next => Some(Data { planet_data: raw_rows, last_id: farthest, first_id: nearest }),
        PageKind::Prev => {
            let planet_data = sort_by_id(raw_rows);
            Some(Data { planet_data, last_id: nearest, first_id: farthest })
        },
    }
}

/// A row of some rows is a row of every rearrangement of them.
proof fn lemma_shared_row(x: Seq<PlanetData>, y: Seq<PlanetData>, row: PlanetData)
    requires
        x.to_multiset() == y.to_multiset(),
        x.contains(row),
    ensures
        y.contains(row),
{
    x.to_multiset_ensures();
    y.to_multiset_ensures();
    assert(x.to_multiset().count(row) > 0);
    assert(y.to_multiset().count(row) > 0);
}

/// Where the store returned what the query asked for, the page is ascending
/// by identifier, holds the rows that were fetched and so no more than
/// `PAGE_SIZE`, and its anchors are the identifiers of its own first and last
/// row.
pub proof fn lemma_page_ascending(page: Data, raw: Seq<PlanetData>, kind: PageKind)
    requires
        is_page_of(page, raw, kind),
        honours(raw, kind),
    ensures
        page.is_built_from(raw),
        page.planet_data@.len() == raw.len(),
        page.planet_data@.len() <= PAGE_SIZE,
{
    let rows = page.planet_data@;
    rows.to_multiset_ensures();
    raw.to_multiset_ensures();
    if kind == PageKind::Prev {
        let low = rows[0];
        let high = rows[rows.len() - 1];
        let near = raw[0];
        let far = raw[raw.len() - 1];
        assert(rows.contains(low));
        assert(rows.contains(high));
        assert(raw.contains(near));
        assert(raw.contains(far));
        lemma_shared_row(rows, raw, low);
        lemma_shared_row(rows, raw, high);
        lemma_shared_row(raw, rows, near);
        lemma_shared_row(raw, rows, far);
        let i = choose|i: int| 0 <= i < raw.len() && raw[i] == low;
        let j = choose|j: int| 0 <= j < raw.len() && raw[j] == high;
        let m = choose|m: int| 0 <= m < rows.len() && rows[m] == far;
        let n = choose|n: int| 0 <= n < rows.len() && rows[n] == near;
        assert(raw[i].id >= raw[raw.len() - 1].id);
        assert(rows[0].id <= rows[m].id);
        assert(raw[0].id >= raw[j].id);
        assert(rows[n].id <= rows[rows.len() - 1].id);
    }
}

/// Rows with distinct identifiers have one ascending arrangement only.
pub proof fn lemma_ascending_unique(x: Seq<PlanetData>, y: Seq<PlanetData>)
    requires
        ascending(x),
        ascending(y),
        distinct_ids(x),
        x.to_multiset() == y.to_multiset(),
    ensures
        x == y,
    decreases x.len(),
{
    x.to_multiset_ensures();
    y.to_multiset_ensures();
    if x.len() > 0 {
        let top = x.len() - 1;
        assert(x.contains(x[top]));
        assert(y.contains(y[top]));
        lemma_shared_row(x, y, x[top]);
        lemma_shared_row(y, x, y[top]);
        let k = choose|k: int| 0 <= k < y.len() && y[k] == x[top];
        let m = choose|m: int| 0 <= m < x.len() && x[m] == y[top];
        assert(x[m].id <= x[top].id);
        assert(y[k].id <= y[top].id);
        assert(m == top);
        assert(x.remove(top) =~= x.drop_last());
        assert(y.remove(top) =~= y.drop_last());
        lemma_ascending_unique(x.drop_last(), y.drop_last());
        assert(x =~= x.drop_last().push(x[top]));
        assert(y =~= y.drop_last().push(y[top]));
    } else {
        assert(x =~= y);
    }
}

/// Asking twice gives the same page: the rows of a page, their order and the
/// anchors are fixed by the rows fetched and the direction, provided no two
/// rows share an identifier.
pub proof fn lemma_page_unique(a: Data, b: Data, raw: Seq<PlanetData>, kind: PageKind)
    requires
        is_page_of(a, raw, kind),
        is_page_of(b, raw, kind),
        distinct_ids(raw),
    ensures
        a.planet_data@ == b.planet_data@,
        a.first_id == b.first_id,
        a.last_id == b.last_id,
{
    if kind == PageKind::Prev {
        lemma_distinct_ids_kept(raw, a.planet_data@);
        lemma_ascending_unique(a.planet_data@, b.planet_data@);
    }
}

/// Rearranging rows keeps their identifiers distinct.
pub proof fn lemma_distinct_ids_kept(x: Seq<PlanetData>, y: Seq<PlanetData>)
    requires
        distinct_ids(x),
        x.to_multiset() == y.to_multiset(),
    ensures
        distinct_ids(y),
{
    assert forall|i: int, j: int| 0 <= i < j < y.len() implies y[i].id != y[j].id by {
        if y[i].id == y[j].id {
            assert(y.contains(y[i]));
            assert(y.contains(y[j]));
            lemma_shared_row(y, x, y[i]);
            lemma_shared_row(y, x, y[j]);
            let p = choose|p: int| 0 <= p < x.len() && x[p] == y[i];
            let q = choose|q: int| 0 <= q < x.len() && x[q] == y[j];
            assert(p == q);
            lemma_count_one(x, p);
            lemma_count_two(y, i, j);
        }
    }
}

/// A row of rows with distinct identifiers occurs among them once.
proof fn lemma_count_one(x: Seq<PlanetData>, p: int)
    requires
        distinct_ids(x),
        0 <= p < x.len(),
    ensures
        x.to_multiset().count(x[p]) == 1,
{
    broadcast use group_multiset_axioms;

    let row = x[p];
    let rest = x.remove(p);
    x.to_multiset_ensures();
    rest.to_multiset_ensures();
    assert(rest.to_multiset() == x.to_multiset().remove(row));
    assert(x.contains(row));
    if rest.contains(row) {
        let r = choose|r: int| 0 <= r < rest.len() && rest[r] == row;
        let orig = if r < p { r } else { r + 1 };
        assert(rest[r] == x[orig]);
        assert(x[orig].id == x[p].id);
    }
    assert(rest.to_multiset().count(row) == 0);
    assert(x.to_multiset().count(row) > 0);
    assert(x.to_multiset().sub(Multiset::singleton(row)).count(row) == x.to_multiset().count(row)
        - 1);
}

/// A row at two places occurs at least twice.
proof fn lemma_count_two(y: Seq<PlanetData>, i: int, j: int)
    requires
        0 <= i < j < y.len(),
        y[i] == y[j],
    ensures
        y.to_multiset().count(y[i]) >= 2,
{
    broadcast use group_multiset_axioms;

    let row = y[i];
    let rest = y.remove(j);
    y.to_multiset_ensures();
    rest.to_multiset_ensures();
    assert(rest.to_multiset() == y.to_multiset().remove(row));
    assert(rest[i] == row);
    assert(rest.contains(row));
    assert(rest.to_multiset().count(row) > 0);
    assert(y.contains(row));
    assert(y.to_multiset().count(row) > 0);
    assert(y.to_multiset().sub(Multiset::singleton(row)).count(row) == y.to_multiset().count(row)
        - 1);
}

} // verus!

//! What the engine expects of the store, and what a caller who pages through
//! the store can then rely on. Nothing here runs: the store is described by
//! the answer it owes, and the laws hold of every store that gives it.

use vstd::prelude::*;
use crate::compile::{clamped, PAGE_SIZE};
use crate::model::data::{Data, PlanetData};
use crate::model::input::PageKind;
use crate::page::{
    distinct_ids, honours, is_page_of, lemma_ascending_unique, lemma_distinct_ids_kept,
    lemma_page_ascending, lemma_page_unique,
};

verus! {

/// Whether rows are in ascending order of identifier with no identifier
/// twice: the rows that match a request, as a store holds them.
pub open spec fn is_table(table: Seq<PlanetData>) -> bool {
    forall|i: int, j: int| 0 <= i < j < table.len() ==> table[i].id < table[j].id
}

/// Whether exactly the first `k` rows of the table have an identifier below
/// `bound`.
pub open spec fn splits_at(table: Seq<PlanetData>, bound: int, k: int) -> bool {
    &&& 0 <= k <= table.len()
    &&& forall|i: int| 0 <= i < k ==> (#[trigger] table[i]).id < bound
    &&& forall|i: int| k <= i < table.len() ==> (#[trigger] table[i]).id >= bound
}

/// The end of a page that starts at row `k`.
pub open spec fn page_end(table: Seq<PlanetData>, k: int) -> int {
    if k + PAGE_SIZE <= table.len() {
        k + PAGE_SIZE
    } else {
        table.len() as int
    }
}

/// The start of a page that ends before row `k`.
pub open spec fn page_start(k: int) -> int {
    if k - PAGE_SIZE >= 0 {
        k - PAGE_SIZE
    } else {
        0
    }
}

/// Whether `fetched` is what a store holding `table` owes the query of a
/// request: for `Next` the rows above the anchor, nearest first, a page at
/// most; for `Prev` the rows below the anchor, nearest first, a page at most.
pub open spec fn answers(
    table: Seq<PlanetData>,
    anchor_id: i64,
    kind: PageKind,
    fetched: Seq<PlanetData>,
) -> bool {
    match kind {
        PageKind::Next => exists|k: int|
            #[trigger] splits_at(table, clamped(anchor_id) + 1, k) && fetched == table.subrange(
                k,
                page_end(table, k),
            ),
        PageKind::Prev => exists|k: int|
            #[trigger] splits_at(table, clamped(anchor_id) as int, k) && fetched == table.subrange(
                page_start(k),
                k,
            ).reverse(),
    }
}

/// A table splits at one place only.
pub proof fn lemma_split_unique(table: Seq<PlanetData>, bound: int, k: int, m: int)
    requires
        splits_at(table, bound, k),
        splits_at(table, bound, m),
    ensures
        k == m,
{
    if k < m {
        assert(table[k].id >= bound);
    } else if m < k {
        assert(table[m].id >= bound);
    }
}

/// Every table splits somewhere, whatever the bound.
pub proof fn lemma_split_exists(table: Seq<PlanetData>, bound: int)
    requires
        is_table(table),
    ensures
        exists|k: int| splits_at(table, bound, k),
    decreases table.len(),
{
    if table.len() == 0 {
        assert(splits_at(table, bound, 0));
    } else {
        let head = table.drop_last();
        lemma_split_exists(head, bound);
        let k = choose|k: int| splits_at(head, bound, k);
        if table.last().id < bound {
            assert forall|i: int| 0 <= i < table.len() implies (#[trigger] table[i]).id < bound by {
                if i < table.len() - 1 {
                    assert(table[i].id < table[table.len() - 1].id);
                }
            }
            assert(splits_at(table, bound, table.len() as int));
        } else {
            assert forall|i: int| 0 <= i < k implies (#[trigger] table[i]).id < bound by {
                assert(head[i] == table[i]);
            }
            assert forall|i: int| k <= i < table.len() implies (#[trigger] table[i]).id >= bound by {
                if i < table.len() - 1 {
                    assert(head[i] == table[i]);
                }
            }
            assert(splits_at(table, bound, k));
        }
    }
}

/// A store can answer every request.
pub proof fn lemma_answer_exists(table: Seq<PlanetData>, anchor_id: i64, kind: PageKind)
    requires
        is_table(table),
    ensures
        exists|fetched: Seq<PlanetData>| answers(table, anchor_id, kind, fetched),
{
    match kind {
        PageKind::Next => {
            let bound = clamped(anchor_id) + 1;
            lemma_split_exists(table, bound);
            let k = choose|k: int| splits_at(table, bound, k);
            assert(answers(table, anchor_id, kind, table.subrange(k, page_end(table, k))));
        },
        PageKind::Prev => {
            let bound = clamped(anchor_id) as int;
            lemma_split_exists(table, bound);
            let k = choose|k: int| splits_at(table, bound, k);
            assert(answers(table, anchor_id, kind, table.subrange(page_start(k), k).reverse()));
        },
    }
}

/// The answer a store owes is the answer the assembler asks for: in the
/// order of the direction, a page at most, no identifier twice.
pub proof fn lemma_answer_honours(
    table: Seq<PlanetData>,
    anchor_id: i64,
    kind: PageKind,
    fetched: Seq<PlanetData>,
)
    requires
        is_table(table),
        answers(table, anchor_id, kind, fetched),
    ensures
        honours(fetched, kind),
        distinct_ids(fetched),
{
    match kind {
        PageKind::Next => {
            let k = choose|k: int|
                #[trigger] splits_at(table, clamped(anchor_id) + 1, k) && fetched
                    == table.subrange(k, page_end(table, k));
            assert forall|i: int, j: int| 0 <= i <= j < fetched.len() implies fetched[i].id
                <= fetched[j].id by {
                assert(fetched[i] == table[k + i]);
                assert(fetched[j] == table[k + j]);
            }
            assert forall|i: int, j: int| 0 <= i < j < fetched.len() implies fetched[i].id
                != fetched[j].id by {
                assert(fetched[i] == table[k + i]);
                assert(fetched[j] == table[k + j]);
            }
        },
        PageKind::Prev => {
            let k = choose|k: int|
                #[trigger] splits_at(table, clamped(anchor_id) as int, k) && fetched
                    == table.subrange(page_start(k), k).reverse();
            assert forall|i: int, j: int| 0 <= i <= j < fetched.len() implies fetched[i].id
                >= fetched[j].id by {
                assert(fetched[i] == table[k - 1 - i]);
                assert(fetched[j] == table[k - 1 - j]);
            }
            assert forall|i: int, j: int| 0 <= i < j < fetched.len() implies fetched[i].id
                != fetched[j].id by {
                assert(fetched[i] == table[k - 1 - i]);
                assert(fetched[j] == table[k - 1 - j]);
            }
        },
    }
}

/// A store owes one answer to a request, not a choice of answers.
pub proof fn lemma_answer_unique(
    table: Seq<PlanetData>,
    anchor_id: i64,
    kind: PageKind,
    fetched: Seq<PlanetData>,
    again: Seq<PlanetData>,
)
    requires
        answers(table, anchor_id, kind, fetched),
        answers(table, anchor_id, kind, again),
    ensures
        fetched == again,
{
    match kind {
        PageKind::Next => {
            let bound = clamped(anchor_id) + 1;
            let k = choose|k: int|
                #[trigger] splits_at(table, bound, k) && fetched == table.subrange(
                    k,
                    page_end(table, k),
                );
            let m = choose|m: int|
                #[trigger] splits_at(table, bound, m) && again == table.subrange(
                    m,
                    page_end(table, m),
                );
            lemma_split_unique(table, bound, k, m);
        },
        PageKind::Prev => {
            let bound = clamped(anchor_id) as int;
            let k = choose|k: int|
                #[trigger] splits_at(table, bound, k) && fetched == table.subrange(
                    page_start(k),
                    k,
                ).reverse();
            let m = choose|m: int|
                #[trigger] splits_at(table, bound, m) && again == table.subrange(
                    page_start(m),
                    m,
                ).reverse();
            lemma_split_unique(table, bound, k, m);
        },
    }
}

/// The same request against the same table shows the same page: the same
/// rows in the same order, under the same anchors.
pub proof fn lemma_same_request_same_page(
    table: Seq<PlanetData>,
    anchor_id: i64,
    kind: PageKind,
    fetched: Seq<PlanetData>,
    page: Data,
    again: Seq<PlanetData>,
    page_again: Data,
)
    requires
        is_table(table),
        answers(table, anchor_id, kind, fetched),
        is_page_of(page, fetched, kind),
        answers(table, anchor_id, kind, again),
        is_page_of(page_again, again, kind),
    ensures
        page.planet_data@ == page_again.planet_data@,
        page.first_id == page_again.first_id,
        page.last_id == page_again.last_id,
{
    lemma_answer_unique(table, anchor_id, kind, fetched, again);
    lemma_answer_honours(table, anchor_id, kind, fetched);
    lemma_page_unique(page, page_again, fetched, kind);
}

/// Every page shown is ascending by identifier, a page at most, anchored on
/// its own first and last row, and lies wholly beyond the anchor it was
/// asked from: above it for `Next`, below it for `Prev`.
pub proof fn lemma_shown_page(
    table: Seq<PlanetData>,
    anchor_id: i64,
    kind: PageKind,
    fetched: Seq<PlanetData>,
    page: Data,
)
    requires
        is_table(table),
        answers(table, anchor_id, kind, fetched),
        is_page_of(page, fetched, kind),
    ensures
        page.is_built_from(fetched),
        page.planet_data@.len() <= PAGE_SIZE,
        kind == PageKind::Next ==> clamped(anchor_id) < page.first_id,
        kind == PageKind::Prev ==> page.last_id < clamped(anchor_id),
{
    lemma_answer_honours(table, anchor_id, kind, fetched);
    lemma_page_ascending(page, fetched, kind);
    match kind {
        PageKind::Next => {
            let k = choose|k: int|
                #[trigger] splits_at(table, clamped(anchor_id) + 1, k) && fetched
                    == table.subrange(k, page_end(table, k));
            assert(fetched[0] == table[k]);
        },
        PageKind::Prev => {
            let k = choose|k: int|
                #[trigger] splits_at(table, clamped(anchor_id) as int, k) && fetched
                    == table.subrange(page_start(k), k).reverse();
            assert(fetched[0] == table[k - 1]);
        },
    }
}

/// Paging on leaves no gap and no overlap: the page fetched from the last
/// identifier of a page starts with the row that follows that page in the
/// table.
pub proof fn lemma_next_page_follows(
    table: Seq<PlanetData>,
    anchor_id: i64,
    fetched: Seq<PlanetData>,
    page: Data,
    fetched_next: Seq<PlanetData>,
)
    requires
        is_table(table),
        answers(table, anchor_id, PageKind::Next, fetched),
        is_page_of(page, fetched, PageKind::Next),
        answers(table, page.last_id, PageKind::Next, fetched_next),
    ensures
        exists|k: int|
            0 <= k && k + fetched.len() + fetched_next.len() <= table.len() && fetched
                + fetched_next == #[trigger] table.subrange(
                k,
                k + fetched.len() + fetched_next.len(),
            ),
{
    let k = choose|k: int|
        #[trigger] splits_at(table, clamped(anchor_id) + 1, k) && fetched == table.subrange(
            k,
            page_end(table, k),
        );
    let e = page_end(table, k);
    let m = choose|m: int|
        #[trigger] splits_at(table, clamped(page.last_id) + 1, m) && fetched_next
            == table.subrange(m, page_end(table, m));
    assert(fetched[fetched.len() - 1] == table[e - 1]);
    assert(table[e - 1].id > clamped(anchor_id));
    assert(splits_at(table, clamped(page.last_id) + 1, e));
    lemma_split_unique(table, clamped(page.last_id) + 1, e, m);
    assert(fetched + fetched_next =~= table.subrange(k, k + fetched.len() + fetched_next.len()));
}

/// Going on one page and back one page shows the page one started from: the
/// same rows in the same order, under the same anchors.
pub proof fn lemma_there_and_back(
    table: Seq<PlanetData>,
    anchor_id: i64,
    fetched: Seq<PlanetData>,
    page: Data,
    fetched_next: Seq<PlanetData>,
    next: Data,
    fetched_back: Seq<PlanetData>,
    back: Data,
)
    requires
        is_table(table),
        answers(table, anchor_id, PageKind::Next, fetched),
        is_page_of(page, fetched, PageKind::Next),
        answers(table, page.last_id, PageKind::Next, fetched_next),
        is_page_of(next, fetched_next, PageKind::Next),
        answers(table, next.first_id, PageKind::Prev, fetched_back),
        is_page_of(back, fetched_back, PageKind::Prev),
    ensures
        back.planet_data@ == page.planet_data@,
        back.first_id == page.first_id,
        back.last_id == page.last_id,
{
    let k = choose|k: int|
        #[trigger] splits_at(table, clamped(anchor_id) + 1, k) && fetched == table.subrange(
            k,
            page_end(table, k),
        );
    let e = page_end(table, k);
    let m = choose|m: int|
        #[trigger] splits_at(table, clamped(page.last_id) + 1, m) && fetched_next
            == table.subrange(m, page_end(table, m));
    let b = choose|b: int|
        #[trigger] splits_at(table, clamped(next.first_id) as int, b) && fetched_back
            == table.subrange(page_start(b), b).reverse();
    assert(fetched[fetched.len() - 1] == table[e - 1]);
    assert(table[e - 1].id > clamped(anchor_id));
    assert(splits_at(table, clamped(page.last_id) + 1, e));
    lemma_split_unique(table, clamped(page.last_id) + 1, e, m);
    assert(fetched_next[0] == table[e]);
    assert(table[e].id > table[e - 1].id);
    assert(splits_at(table, clamped(next.first_id) as int, e));
    lemma_split_unique(table, clamped(next.first_id) as int, e, b);
    assert(page_start(e) == k);
    assert(fetched_back == fetched.reverse());
    assert(fetched_back[0] == fetched[fetched.len() - 1]);
    assert(fetched_back[fetched_back.len() - 1] == fetched[0]);
    lemma_answer_honours(table, anchor_id, PageKind::Next, fetched);
    fetched.lemma_reverse_to_multiset();
    lemma_distinct_ids_kept(fetched, back.planet_data@);
    lemma_ascending_unique(back.planet_data@, fetched);
}

/// Going back one page and on one page shows the page one started from,
/// provided the identifiers are positive, as a negative anchor stands for the
/// first page.
pub proof fn lemma_back_and_there(
    table: Seq<PlanetData>,
    anchor_id: i64,
    fetched: Seq<PlanetData>,
    page: Data,
    fetched_prev: Seq<PlanetData>,
    prev: Data,
    fetched_on: Seq<PlanetData>,
    on: Data,
)
    requires
        is_table(table),
        forall|i: int| 0 <= i < table.len() ==> (#[trigger] table[i]).id > 0,
        answers(table, anchor_id, PageKind::Prev, fetched),
        is_page_of(page, fetched, PageKind::Prev),
        answers(table, page.first_id, PageKind::Prev, fetched_prev),
        is_page_of(prev, fetched_prev, PageKind::Prev),
        answers(table, prev.last_id, PageKind::Next, fetched_on),
        is_page_of(on, fetched_on, PageKind::Next),
    ensures
        on.planet_data@ == page.planet_data@,
        on.first_id == page.first_id,
        on.last_id == page.last_id,
{
    let k = choose|k: int|
        #[trigger] splits_at(table, clamped(anchor_id) as int, k) && fetched == table.subrange(
            page_start(k),
            k,
        ).reverse();
    let s = page_start(k);
    let m = choose|m: int|
        #[trigger] splits_at(table, clamped(page.first_id) as int, m) && fetched_prev
            == table.subrange(page_start(m), m).reverse();
    let n = choose|n: int|
        #[trigger] splits_at(table, clamped(prev.last_id) + 1, n) && fetched_on == table.subrange(
            n,
            page_end(table, n),
        );
    let slice = table.subrange(s, k);
    assert(fetched[fetched.len() - 1] == table[s]);
    assert(fetched[0] == table[k - 1]);
    assert(table[s].id > 0);
    assert(splits_at(table, clamped(page.first_id) as int, s));
    lemma_split_unique(table, clamped(page.first_id) as int, s, m);
    assert(fetched_prev[0] == table[s - 1]);
    assert(table[s - 1].id > 0);
    assert(table[s - 1].id < table[s].id);
    assert(splits_at(table, clamped(prev.last_id) + 1, s));
    lemma_split_unique(table, clamped(prev.last_id) + 1, s, n);
    assert(page_end(table, s) == k);
    assert(fetched_on == slice);
    assert(fetched == slice.reverse());
    lemma_answer_honours(table, prev.last_id, PageKind::Next, slice);
    slice.lemma_reverse_to_multiset();
    lemma_distinct_ids_kept(slice, page.planet_data@);
    lemma_ascending_unique(page.planet_data@, slice);
}

} // verus!

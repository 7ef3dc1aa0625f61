//! Handing a compiled query to SQLite through `sqlx`: fixed text is pushed
//! as text, values are pushed as bind arguments.

use vstd::prelude::*;
use sqlx::{QueryBuilder, Sqlite};
use crate::compile::{fragments_binds, fragments_text, Bound, BoundValue, CompiledQuery, Fragment};

verus! {

/// A `sqlx::QueryBuilder` for SQLite. Verus cannot look inside it: what it
/// holds is known through `builder_sql`, `builder_binds` and `builder_open`
/// only. The field is public so that the caller who runs the query can take
/// the builder out.
#[verifier::external_body]
pub struct SqliteQuery {
    pub builder: QueryBuilder<'static, Sqlite>,
}

/// The query text a builder has collected: what `QueryBuilder::sql` returns.
pub uninterp spec fn builder_sql(builder: SqliteQuery) -> Seq<char>;

/// The bind arguments a builder has collected, oldest first.
pub uninterp spec fn builder_binds(builder: SqliteQuery) -> Seq<Bound>;

/// Whether a builder still takes text and arguments: it does from `new`
/// until `build` takes its arguments away.
pub uninterp spec fn builder_open(builder: SqliteQuery) -> bool;

/// `QueryBuilder::new`: a builder that holds the initial text and no
/// arguments, and is open.
#[verifier::external_body]
fn builder_new(init: &str) -> (builder: SqliteQuery)
    ensures
        builder_sql(builder) == init@,
        builder_binds(builder) == Seq::<Bound>::empty(),
        builder_open(builder),
{
    SqliteQuery { builder: QueryBuilder::new(init) }
}

/// `QueryBuilder::push`: appends the text to the query and leaves the
/// arguments alone. It panics on a builder that `build` has closed.
#[verifier::external_body]
fn builder_push(builder: &mut SqliteQuery, sql: &str)
    requires
        builder_open(*old(builder)),
    ensures
        builder_sql(*final(builder)) == builder_sql(*old(builder)) + sql@,
        builder_binds(*final(builder)) == builder_binds(*old(builder)),
        builder_open(*final(builder)),
{
    builder.builder.push(sql);
}

/// `QueryBuilder::push_bind` with a `String`: adds the value to the
/// arguments as text and appends SQLite's placeholder, `?`, to the query. It
/// panics on a builder that `build` has closed.
#[verifier::external_body]
fn builder_push_bind_text(builder: &mut SqliteQuery, value: String)
    requires
        builder_open(*old(builder)),
    ensures
        builder_sql(*final(builder)) == builder_sql(*old(builder)) + "?"@,
        builder_binds(*final(builder)) == builder_binds(*old(builder)).push(Bound::Text(value@)),
        builder_open(*final(builder)),
{
    builder.builder.push_bind(value);
}

/// `QueryBuilder::push_bind` with an `i64`: adds the value to the arguments
/// as a 64-bit integer and appends SQLite's placeholder, `?`, to the query.
/// It panics on a builder that `build` has closed.
#[verifier::external_body]
fn builder_push_bind_integer(builder: &mut SqliteQuery, value: i64)
    requires
        builder_open(*old(builder)),
    ensures
        builder_sql(*final(builder)) == builder_sql(*old(builder)) + "?"@,
        builder_binds(*final(builder)) == builder_binds(*old(builder)).push(Bound::Integer(value)),
        builder_open(*final(builder)),
{
    builder.builder.push_bind(value);
}

/// Builds the `sqlx` query of a compiled query: the same text, the same
/// values bound in the same order. Where the query starts with fixed text,
/// as every compiled query does with the base query, the builder is made
/// with that text as its initial fragment. The builder is open, so the
/// caller can build and run it.
pub fn to_builder(query: &CompiledQuery) -> (builder: SqliteQuery)
    ensures
        builder_sql(builder) == query.text(),
        builder_binds(builder) == query.binds(),
        builder_open(builder),
{
    let mut builder;
    let mut i: usize;
    if query.fragments.len() > 0 {
        match &query.fragments[0] {
            Fragment::Sql(text) => {
                builder = builder_new(text);
                i = 1;
                proof {
                    let head = query.fragments@.take(1);
                    assert(head.drop_last() =~= Seq::<Fragment>::empty());
                    assert(head.last() == query.fragments@[0]);
                    assert(fragments_text(head.drop_last()) =~= Seq::<char>::empty());
                    assert(fragments_binds(head.drop_last()) =~= Seq::<Bound>::empty());
                    assert(builder_sql(builder) =~= fragments_text(query.fragments@.take(1)));
                    assert(builder_binds(builder) =~= fragments_binds(query.fragments@.take(1)));
                }
            },
            Fragment::Bind(_) => {
                builder = builder_new("");
                i = 0;
            },
        }
    } else {
        builder = builder_new("");
        i = 0;
    }
    proof {
        reveal_strlit("");
        if i == 0 {
            assert(builder_sql(builder) =~= fragments_text(query.fragments@.take(0)));
            assert(builder_binds(builder) =~= fragments_binds(query.fragments@.take(0)));
        }
    }
    while i < query.fragments.len()
        invariant
            i <= query.fragments@.len(),
            builder_open(builder),
            builder_sql(builder) == fragments_text(query.fragments@.take(i as int)),
            builder_binds(builder) == fragments_binds(query.fragments@.take(i as int)),
        decreases query.fragments@.len() - i,
    {
        let ghost before = builder_binds(builder);
        match &query.fragments[i] {
            Fragment::Sql(text) => {
                builder_push(&mut builder, text);
            },
            Fragment::Bind(BoundValue::Text(value)) => {
                builder_push_bind_text(&mut builder, value.clone());
            },
            Fragment::Bind(BoundValue::Integer(value)) => {
                builder_push_bind_integer(&mut builder, *value);
            },
        }
        proof {
            assert(query.fragments@.take(i + 1).drop_last() =~= query.fragments@.take(i as int));
            assert(builder_binds(builder) =~= before + query.fragments@[i as int].binds());
        }
        i += 1;
    }
    proof {
        assert(query.fragments@.take(i as int) =~= query.fragments@);
    }
    builder_push(&mut builder, query.order.tail());
    builder
}

} // verus!

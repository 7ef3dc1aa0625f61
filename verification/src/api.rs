//! One request from end to end. The engine does the steps on either side of
//! the store: `prepare` turns a request into a query, the caller runs the
//! query, and `conclude` turns what came back into the response.

use vstd::prelude::*;
use crate::compile::{
    boundary_text, clamped, clause_text, compile, filters_binds, filters_text, order_of, Bound,
    CompiledQuery, BASE_QUERY,
};
use crate::field::Field;
use crate::filter::{
    all_known, field_known, first_unknown_field, first_unknown_operator, reads_as, validate,
    ValidatedClause, ValidationError,
};
use crate::model::data::{Data, PlanetData};
use crate::model::input::{ComparisonOperator, Input, PageKind};
use crate::page::{assemble, is_page_of};

verus! {

/// Why a request gave no response. A request that could not be run is never
/// answered as if it had matched nothing.
#[derive(Debug)]
pub enum QueryError<E> {
    /// The request was rejected before the store was asked.
    Validation(ValidationError),
    /// The store failed; its own error is passed on as it is.
    Execution(E),
}

/// The predicate that a filter row asks for: its field and operator as
/// written, its literal as a placeholder.
pub open spec fn input_text(input: Input) -> Seq<char> {
    " AND "@ + input.field@ + " "@ + input.comparison_op@ + " "@ + "?"@
}

/// The predicates of the filter rows, in input order.
pub open spec fn inputs_text(inputs: Seq<Input>) -> Seq<char>
    decreases inputs.len(),
{
    if inputs.len() == 0 {
        Seq::empty()
    } else {
        inputs_text(inputs.drop_last()) + input_text(inputs.last())
    }
}

/// The text of the query for a request: base predicate, one predicate per
/// filter row, keyset boundary, order and limit.
pub open spec fn request_text(inputs: Seq<Input>, kind: PageKind) -> Seq<char> {
    BASE_QUERY@ + inputs_text(inputs) + boundary_text(kind) + order_of(kind).clause()
}

/// The values bound by the query for a request: the literal of each filter
/// row as text, then the anchor.
pub open spec fn request_binds(inputs: Seq<Input>, anchor_id: i64) -> Seq<Bound> {
    Seq::new(inputs.len(), |i: int| Bound::Text(inputs[i].value@)).push(
        Bound::Integer(clamped(anchor_id)),
    )
}

/// The text of the query does not depend on the literals, nor on the anchor:
/// requests whose rows name the same fields and operators have the same
/// text, whatever characters their literals hold.
pub proof fn lemma_request_text_ignores_values(a: Seq<Input>, b: Seq<Input>, kind: PageKind)
    requires
        a.len() == b.len(),
        forall|i: int|
            0 <= i < a.len() ==> (#[trigger] a[i]).field@ == b[i].field@ && a[i].comparison_op@
                == b[i].comparison_op@,
    ensures
        request_text(a, kind) == request_text(b, kind),
{
    lemma_inputs_text_ignores_values(a, b);
}

proof fn lemma_inputs_text_ignores_values(a: Seq<Input>, b: Seq<Input>)
    requires
        a.len() == b.len(),
        forall|i: int|
            0 <= i < a.len() ==> (#[trigger] a[i]).field@ == b[i].field@ && a[i].comparison_op@
                == b[i].comparison_op@,
    ensures
        inputs_text(a) == inputs_text(b),
    decreases a.len(),
{
    if a.len() > 0 {
        assert(a.last() == a[a.len() - 1]);
        lemma_inputs_text_ignores_values(a.drop_last(), b.drop_last());
    }
}

/// Preparing the same request twice gives the same query: its text, its
/// values and its order are fixed by the request.
pub proof fn lemma_same_request_same_query(
    query: Seq<Input>,
    anchor_id: i64,
    kind: PageKind,
    compiled: CompiledQuery,
    again: CompiledQuery,
)
    requires
        compiled.text() == request_text(query, kind),
        compiled.binds() == request_binds(query, anchor_id),
        compiled.order == order_of(kind),
        again.text() == request_text(query, kind),
        again.binds() == request_binds(query, anchor_id),
        again.order == order_of(kind),
    ensures
        compiled.text() == again.text(),
        compiled.binds() == again.binds(),
        compiled.order == again.order,
{
}

/// A validated clause is written in the query as the filter row was: the
/// allow-list and the operator set admit a text only as itself.
pub proof fn lemma_clause_text_is_input_text(input: Input, clause: ValidatedClause)
    requires
        Field::named(input.field@) == Some(clause.field()),
        *clause.comparison() == ComparisonOperator::read(input.comparison_op@, input.value),
        !(clause.comparison() is Default),
    ensures
        clause_text(clause) == input_text(input),
        clause.comparison().literal() == input.value,
{
}

proof fn lemma_filters_are_inputs(inputs: Seq<Input>, valid: Seq<ValidatedClause>)
    requires
        reads_as(inputs, valid),
    ensures
        filters_text(valid) == inputs_text(inputs),
    decreases inputs.len(),
{
    if inputs.len() > 0 {
        let last = inputs.len() - 1;
        assert(valid[last] == valid.last());
        lemma_clause_text_is_input_text(inputs[last], valid[last]);
        assert forall|i: int| 0 <= i < last implies {
            &&& Field::named(inputs.drop_last()[i].field@) == Some(
                (#[trigger] valid.drop_last()[i]).field(),
            )
            &&& *valid.drop_last()[i].comparison() == ComparisonOperator::read(
                inputs.drop_last()[i].comparison_op@,
                inputs.drop_last()[i].value,
            )
            &&& !(valid.drop_last()[i].comparison() is Default)
        } by {
            assert(valid.drop_last()[i] == valid[i]);
        }
        lemma_filters_are_inputs(inputs.drop_last(), valid.drop_last());
    }
}

/// Validates a request and compiles its query. A request with a field
/// outside the allow-list or an operator outside the set is rejected and no
/// query comes of it.
pub fn prepare(query: Vec<Input>, anchor_id: i64, page_direction: PageKind) -> (result: Result<
    CompiledQuery,
    ValidationError,
>)
    ensures
        result is Ok <==> all_known(query@),
        (exists|i: int| 0 <= i < query@.len() && !field_known(#[trigger] query@[i]))
            ==> result matches Err(ValidationError::UnknownField(_)),
        match result {
            Ok(compiled) => {
                &&& compiled.text() == request_text(query@, page_direction)
                &&& compiled.binds() == request_binds(query@, anchor_id)
                &&& compiled.order == order_of(page_direction)
            },
            Err(ValidationError::UnknownField(name)) => exists|i: int|
                first_unknown_field(query@, i) && name@ == (#[trigger] query@[i]).field@,
            Err(ValidationError::UnknownOperator(op)) => exists|i: int|
                first_unknown_operator(query@, i) && op@ == (#[trigger] query@[i]).comparison_op@,
        },
{
    match validate(query) {
        Ok(valid) => {
            let compiled = compile(valid, anchor_id, page_direction);
            proof {
                lemma_filters_are_inputs(query@, valid@);
                assert(filters_binds(valid@) =~= Seq::new(
                    query@.len(),
                    |i: int| Bound::Text(query@[i].value@),
                ));
            }
            Ok(compiled)
        },
        Err(error) => Err(error),
    }
}

/// Turns what the store returned into the response. A failure of the store
/// is passed on whole; rows become a page; no rows become no page.
pub fn conclude<E>(fetched: Result<Vec<PlanetData>, E>, page_direction: PageKind) -> (response:
    Result<Option<Data>, QueryError<E>>)
    ensures
        match fetched {
            Ok(rows) => {
                &&& response matches Ok(page)
                &&& page is None <==> rows@.len() == 0
                &&& page matches Some(data) ==> is_page_of(data, rows@, page_direction)
            },
            Err(error) => response matches Err(QueryError::Execution(e)) && e == error,
        },
{
    match fetched {
        Ok(rows) => Ok(assemble(rows, page_direction)),
        Err(error) => Err(QueryError::Execution(error)),
    }
}

} // verus!

//! Validation of filter clauses: every clause is checked against the field
//! allow-list and the operator set before anything is compiled from it.

use vstd::prelude::*;
use crate::field::Field;
use crate::model::input::{ComparisonOperator, Input};

verus! {

/// A clause that passed validation: a field of the allow-list and one of the
/// six comparisons. The fields are private so that the only way to obtain a
/// value is to have the parts checked.
#[derive(Debug)]
pub struct ValidatedClause {
    field: Field,
    comparison: ComparisonOperator,
}

/// Why a request was rejected. Each variant carries the offending text as the
/// caller supplied it.
#[derive(Debug)]
pub enum ValidationError {
    UnknownField(String),
    UnknownOperator(String),
}

impl ValidatedClause {
    #[verifier::type_invariant]
    spec fn compares(self) -> bool {
        !(self.comparison is Default)
    }

    /// The field the clause constrains.
    pub closed spec fn spec_field(&self) -> Field {
        self.field
    }

    /// The comparison the clause makes, with its literal.
    pub closed spec fn spec_comparison(&self) -> &ComparisonOperator {
        &self.comparison
    }

    /// Joins a field and a comparison into a clause; `None` when the
    /// comparison is `Default`.
    pub fn new(field: Field, comparison: ComparisonOperator) -> (clause: Option<ValidatedClause>)
        ensures
            clause is Some <==> !(comparison is Default),
            clause matches Some(c) ==> c.field() == field && *c.comparison() == comparison,
    {
        if comparison.is_comparison() {
            Some(ValidatedClause { field, comparison })
        } else {
            None
        }
    }

    /// The field the clause constrains.
    #[verifier::when_used_as_spec(spec_field)]
    pub fn field(&self) -> (field: Field)
        ensures
            field == self.spec_field(),
    {
        self.field
    }

    /// The comparison the clause makes; never `Default`.
    #[verifier::when_used_as_spec(spec_comparison)]
    pub fn comparison(&self) -> (comparison: &ComparisonOperator)
        ensures
            comparison == self.spec_comparison(),
            !(comparison is Default),
    {
        proof {
            use_type_invariant(self);
        }
        &self.comparison
    }
}

/// Whether the field of a filter row is on the allow-list.
pub open spec fn field_known(input: Input) -> bool {
    Field::named(input.field@) is Some
}

/// Whether the operator of a filter row is one of the six.
pub open spec fn operator_known(input: Input) -> bool {
    !(ComparisonOperator::read(input.comparison_op@, input.value) is Default)
}

/// Whether row `i` is the first whose field is not on the allow-list.
pub open spec fn first_unknown_field(clauses: Seq<Input>, i: int) -> bool {
    &&& 0 <= i < clauses.len()
    &&& !field_known(clauses[i])
    &&& forall|j: int| 0 <= j < i ==> field_known(#[trigger] clauses[j])
}

/// Whether row `i` is the first whose operator is not one of the six.
pub open spec fn first_unknown_operator(clauses: Seq<Input>, i: int) -> bool {
    &&& 0 <= i < clauses.len()
    &&& !operator_known(clauses[i])
    &&& forall|j: int| 0 <= j < i ==> operator_known(#[trigger] clauses[j])
}

/// Whether every row names a known field and a known operator.
pub open spec fn all_known(clauses: Seq<Input>) -> bool {
    forall|i: int|
        0 <= i < clauses.len() ==> field_known(#[trigger] clauses[i]) && operator_known(clauses[i])
}

/// Whether `valid` is `clauses` read row by row, in the same order.
pub open spec fn reads_as(clauses: Seq<Input>, valid: Seq<ValidatedClause>) -> bool {
    &&& valid.len() == clauses.len()
    &&& forall|i: int|
        0 <= i < clauses.len() ==> {
            &&& Field::named(clauses[i].field@) == Some((#[trigger] valid[i]).field())
            &&& *valid[i].comparison() == ComparisonOperator::read(
                clauses[i].comparison_op@,
                clauses[i].value,
            )
            &&& !(valid[i].comparison() is Default)
        }
}

/// Checks every row of a request. All fields are checked before any
/// operator, so a request with a field outside the allow-list is always
/// answered with `UnknownField`, naming the first such field; otherwise the
/// first operator outside the set is reported. An empty request is accepted.
pub fn validate(clauses: Vec<Input>) -> (result: Result<Vec<ValidatedClause>, ValidationError>)
    ensures
        result is Ok <==> all_known(clauses@),
        (exists|i: int| 0 <= i < clauses@.len() && !field_known(#[trigger] clauses@[i]))
            ==> result matches Err(ValidationError::UnknownField(_)),
        match result {
            Ok(valid) => reads_as(clauses@, valid@),
            Err(ValidationError::UnknownField(name)) => exists|i: int|
                first_unknown_field(clauses@, i) && name@ == (#[trigger] clauses@[i]).field@,
            Err(ValidationError::UnknownOperator(op)) => exists|i: int|
                first_unknown_operator(clauses@, i) && op@ == (
                #[trigger] clauses@[i]).comparison_op@,
        },
{
    let mut fields: Vec<Field> = Vec::new();
    let mut i: usize = 0;
    while i < clauses.len()
        invariant
            i <= clauses@.len(),
            fields@.len() == i,
            forall|j: int|
                0 <= j < i ==> Field::named((#[trigger] clauses@[j]).field@) == Some(fields@[j]),
        decreases clauses@.len() - i,
    {
        match Field::parse(clauses[i].field.as_str()) {
            Some(field) => {
                fields.push(field);
            },
            None => {
                assert(first_unknown_field(clauses@, i as int));
                return Err(ValidationError::UnknownField(clauses[i].field.clone()));
            },
        }
        i += 1;
    }
    let mut valid: Vec<ValidatedClause> = Vec::new();
    let mut k: usize = 0;
    while k < clauses.len()
        invariant
            k <= clauses@.len(),
            fields@.len() == clauses@.len(),
            forall|j: int|
                0 <= j < clauses@.len() ==> Field::named((#[trigger] clauses@[j]).field@) == Some(
                    fields@[j],
                ),
            reads_as(clauses@.take(k as int), valid@),
        decreases clauses@.len() - k,
    {
        let comparison = ComparisonOperator::parse(
            clauses[k].comparison_op.as_str(),
            clauses[k].value.clone(),
        );
        match ValidatedClause::new(fields[k], comparison) {
            Some(clause) => {
                valid.push(clause);
            },
            None => {
                assert forall|j: int| 0 <= j < k implies operator_known(#[trigger] clauses@[j]) by {
                    assert(clauses@.take(k as int)[j] == clauses@[j]);
                    assert(!(valid@[j].comparison() is Default));
                }
                assert(first_unknown_operator(clauses@, k as int));
                assert(!all_known(clauses@));
                return Err(ValidationError::UnknownOperator(clauses[k].comparison_op.clone()));
            },
        }
        proof {
            let before = clauses@.take(k as int);
            let after = clauses@.take(k + 1);
            assert forall|j: int| 0 <= j < after.len() implies {
                &&& Field::named(after[j].field@) == Some((#[trigger] valid@[j]).field())
                &&& *valid@[j].comparison() == ComparisonOperator::read(
                    after[j].comparison_op@,
                    after[j].value,
                )
                &&& !(valid@[j].comparison() is Default)
            } by {
                if j < k {
                    assert(before[j] == after[j]);
                }
            }
        }
        k += 1;
    }
    proof {
        assert(clauses@.take(k as int) =~= clauses@);
        assert forall|j: int| 0 <= j < clauses@.len() implies field_known(#[trigger] clauses@[j])
            && operator_known(clauses@[j]) by {
            assert(!(valid@[j].comparison() is Default));
        }
    }
    Ok(valid)
}

} // verus!

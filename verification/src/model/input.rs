//! What a caller sends: filter rows as typed in, and where to page from.

use vstd::prelude::*;
use crate::model::data::{Data, PlanetData};
use crate::text::same;

verus! {

/// One filter row exactly as the caller supplied it; nothing in it has been
/// checked yet.
#[derive(Debug, Clone)]
pub struct Input {
    pub field: String,
    pub comparison_op: String,
    pub value: String,
}

impl Input {
    /// A blank filter row.
    pub fn new() -> (input: Input)
        ensures
            input.field@ == Seq::<char>::empty(),
            input.comparison_op@ == Seq::<char>::empty(),
            input.value@ == Seq::<char>::empty(),
    {
        Input { field: String::new(), comparison_op: String::new(), value: String::new() }
    }
}

impl Default for Input {
    fn default() -> (input: Input)
        ensures
            input.field@ == Seq::<char>::empty(),
            input.comparison_op@ == Seq::<char>::empty(),
            input.value@ == Seq::<char>::empty(),
    {
        Input::new()
    }
}

/// The filter rows of one request, in the order the caller arranged them.
#[derive(Debug, Clone)]
pub struct Query {
    pub inputs: Vec<Input>,
}

impl Query {
    /// A request with no filter rows: every record matches.
    pub fn new() -> (query: Query)
        ensures
            query.inputs@.len() == 0,
    {
        Query { inputs: Vec::new() }
    }
}

impl Default for Query {
    fn default() -> (query: Query)
        ensures
            query.inputs@.len() == 0,
    {
        Query::new()
    }
}

/// Which way to page from the anchor.
#[derive(Debug, Clone, Copy, PartialEq, Eq, Structural)]
pub enum PageKind {
    /// Records whose identifier is greater than the anchor.
    Next,
    /// Records whose identifier is less than the anchor.
    Prev,
}

/// The ends of the page a caller is looking at, and the way it wants to go
/// from there.
#[derive(Debug, Clone)]
pub struct Page {
    pub kind: PageKind,
    pub last_id: i64,
    pub first_id: Option<i64>,
}

impl Page {
    /// The identifier this directive pages from: the last one shown when
    /// going on, the first one shown when going back. Where nothing has been
    /// shown yet it is `0`, below every identifier.
    pub open spec fn anchor(self) -> i64 {
        match self.kind {
            PageKind::Next => self.last_id,
            PageKind::Prev => match self.first_id {
                Some(id) => id,
                None => 0,
            },
        }
    }

    /// The directive for the first page: onward from `0`, nothing shown.
    pub fn first() -> (page: Page)
        ensures
            page.kind == PageKind::Next,
            page.last_id == 0,
            page.first_id is None,
    {
        Page { kind: PageKind::Next, last_id: 0, first_id: None }
    }

    /// The identifier this directive pages from.
    pub fn anchor_id(&self) -> (anchor_id: i64)
        ensures
            anchor_id == self.anchor(),
    {
        match self.kind {
            PageKind::Next => self.last_id,
            PageKind::Prev => match self.first_id {
                Some(id) => id,
                None => 0,
            },
        }
    }

    /// The directive for leaving what is shown in the given direction.
    pub fn toward(&self, kind: PageKind) -> (page: Page)
        ensures
            page.kind == kind,
            page.last_id == self.last_id,
            page.first_id == self.first_id,
    {
        Page { kind, last_id: self.last_id, first_id: self.first_id }
    }

    /// Takes in the outcome of a request and says what to show for it. A
    /// page moves the ends to its own and shows its rows. No page, or nothing
    /// asked yet, shows no rows and leaves the ends where they were. A
    /// failure leaves the ends where they were too, and is handed back as the
    /// failure it is, so that it is never shown as a request that matched
    /// nothing.
    pub fn receive<E>(&mut self, value: Option<Result<Option<Data>, E>>) -> (shown: Result<
        Vec<PlanetData>,
        E,
    >)
        ensures
            final(self).kind == old(self).kind,
            match value {
                Some(Ok(Some(data))) => {
                    &&& shown matches Ok(rows)
                    &&& rows@ == data.planet_data@
                    &&& final(self).last_id == data.last_id
                    &&& final(self).first_id == Some(data.first_id)
                },
                Some(Err(error)) => {
                    &&& *final(self) == *old(self)
                    &&& shown matches Err(e)
                    &&& e == error
                },
                _ => {
                    &&& *final(self) == *old(self)
                    &&& shown matches Ok(rows)
                    &&& rows@.len() == 0
                },
            },
    {
        match value {
            Some(Ok(Some(data))) => {
                self.last_id = data.last_id;
                self.first_id = Some(data.first_id);
                Ok(data.planet_data)
            },
            Some(Err(error)) => Err(error),
            _ => Ok(Vec::new()),
        }
    }
}

/// A predicate together with the connective that joins it to what precedes
/// it.
#[derive(Debug, Clone)]
pub enum LogicalOperators {
    And(String),
    Or(String),
}

/// A comparison against a literal. `Default` is the comparison of a row whose
/// operator is not one of the six: it compares nothing and no validated
/// clause holds it.
#[derive(Debug, Clone)]
pub enum ComparisonOperator {
    LessThan(String),
    GreaterThan(String),
    Equals(String),
    NotEquals(String),
    LessThanOrEquals(String),
    GreaterThanOrEquals(String),
    Default(String),
}

impl ComparisonOperator {
    /// The operator as it is written in a request and in the query text;
    /// empty for `Default`.
    pub open spec fn token(self) -> Seq<char> {
        match self {
            ComparisonOperator::LessThan(_) => "<"@,
            ComparisonOperator::GreaterThan(_) => ">"@,
            ComparisonOperator::Equals(_) => "="@,
            ComparisonOperator::NotEquals(_) => "!="@,
            ComparisonOperator::LessThanOrEquals(_) => "<="@,
            ComparisonOperator::GreaterThanOrEquals(_) => ">="@,
            ComparisonOperator::Default(_) => ""@,
        }
    }

    /// The literal compared against.
    pub open spec fn literal(self) -> String {
        match self {
            ComparisonOperator::LessThan(v) => v,
            ComparisonOperator::GreaterThan(v) => v,
            ComparisonOperator::Equals(v) => v,
            ComparisonOperator::NotEquals(v) => v,
            ComparisonOperator::LessThanOrEquals(v) => v,
            ComparisonOperator::GreaterThanOrEquals(v) => v,
            ComparisonOperator::Default(v) => v,
        }
    }

    /// The comparison that an operator token and a literal stand for.
    pub open spec fn read(op: Seq<char>, value: String) -> ComparisonOperator {
        if op == "="@ {
            ComparisonOperator::Equals(value)
        } else if op == "!="@ {
            ComparisonOperator::NotEquals(value)
        } else if op == "<"@ {
            ComparisonOperator::LessThan(value)
        } else if op == ">"@ {
            ComparisonOperator::GreaterThan(value)
        } else if op == ">="@ {
            ComparisonOperator::GreaterThanOrEquals(value)
        } else if op == "<="@ {
            ComparisonOperator::LessThanOrEquals(value)
        } else {
            ComparisonOperator::Default(value)
        }
    }

    /// Reads an operator token; any text outside the six tokens gives
    /// `Default`.
    pub fn parse(op: &str, value: String) -> (comparison: ComparisonOperator)
        ensures
            comparison == ComparisonOperator::read(op@, value),
    {
        if same(op, "=") {
            ComparisonOperator::Equals(value)
        } else if same(op, "!=") {
            ComparisonOperator::NotEquals(value)
        } else if same(op, "<") {
            ComparisonOperator::LessThan(value)
        } else if same(op, ">") {
            ComparisonOperator::GreaterThan(value)
        } else if same(op, ">=") {
            ComparisonOperator::GreaterThanOrEquals(value)
        } else if same(op, "<=") {
            ComparisonOperator::LessThanOrEquals(value)
        } else {
            ComparisonOperator::Default(value)
        }
    }

    /// The operator token.
    pub fn symbol(&self) -> (symbol: &'static str)
        ensures
            symbol@ == self.token(),
    {
        match self {
            ComparisonOperator::LessThan(_) => "<",
            ComparisonOperator::GreaterThan(_) => ">",
            ComparisonOperator::Equals(_) => "=",
            ComparisonOperator::NotEquals(_) => "!=",
            ComparisonOperator::LessThanOrEquals(_) => "<=",
            ComparisonOperator::GreaterThanOrEquals(_) => ">=",
            ComparisonOperator::Default(_) => "",
        }
    }

    /// The literal compared against.
    pub fn operand(&self) -> (operand: &String)
        ensures
            *operand == self.literal(),
    {
        match self {
            ComparisonOperator::LessThan(v) => v,
            ComparisonOperator::GreaterThan(v) => v,
            ComparisonOperator::Equals(v) => v,
            ComparisonOperator::NotEquals(v) => v,
            ComparisonOperator::LessThanOrEquals(v) => v,
            ComparisonOperator::GreaterThanOrEquals(v) => v,
            ComparisonOperator::Default(v) => v,
        }
    }

    /// Whether this is one of the six comparisons.
    pub fn is_comparison(&self) -> (supported: bool)
        ensures
            supported == !(self is Default),
    {
        match self {
            ComparisonOperator::Default(_) => false,
            _ => true,
        }
    }
}

/// Reading keeps the literal as it is, whatever the token.
pub proof fn lemma_read_keeps_literal(op: Seq<char>, value: String)
    ensures
        ComparisonOperator::read(op, value).literal() == value,
{
}

/// A comparison is read back from its own token and literal.
pub proof fn lemma_read_token(comparison: ComparisonOperator)
    requires
        !(comparison is Default),
    ensures
        ComparisonOperator::read(comparison.token(), comparison.literal()) == comparison,
{
    reveal_strlit("=");
    reveal_strlit("!=");
    reveal_strlit("<");
    reveal_strlit(">");
    reveal_strlit(">=");
    reveal_strlit("<=");
    assert("="@.len() == 1 && "="@[0] == '=');
    assert("!="@.len() == 2 && "!="@[0] == '!');
    assert("<"@.len() == 1 && "<"@[0] == '<');
    assert(">"@.len() == 1 && ">"@[0] == '>');
    assert(">="@.len() == 2 && ">="@[0] == '>');
    assert("<="@.len() == 2 && "<="@[0] == '<');
}

/// Only the six tokens read as a comparison.
pub proof fn lemma_read_default(op: Seq<char>, value: String)
    ensures
        ComparisonOperator::read(op, value) is Default <==> !(op == "="@ || op == "!="@ || op == "<"@
            || op == ">"@ || op == ">="@ || op == "<="@),
{
}

} // verus!

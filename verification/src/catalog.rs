//! What a form offers for building filter rows: the fields of the allow-list
//! and the operators of the operator set, each as an item to pick.

use vstd::prelude::*;
use crate::field::Field;
use crate::model::input::ComparisonOperator;

verus! {

/// An entry of a pick list: the text that goes into a filter row, the text
/// shown for it, and its place in the list.
#[derive(Debug, Clone, Copy)]
pub struct Item {
    pub id: &'static str,
    pub value: &'static str,
    pub fe_id: usize,
}

/// The operator tokens, in the order in which they are offered.
pub open spec fn offered_tokens() -> Seq<Seq<char>> {
    seq!["="@, "!="@, "<"@, ">"@, ">="@, "<="@]
}

/// The fields to pick from: one item per field of the allow-list, in listed
/// order, with the field's name as its text and the field's heading shown.
pub fn field_items() -> (items: Vec<Item>)
    ensures
        items@.len() == Field::listed().len(),
        forall|i: int|
            0 <= i < items@.len() ==> {
                &&& (#[trigger] items@[i]).id@ == Field::listed()[i].name()
                &&& items@[i].value@ == Field::listed()[i].title()
                &&& items@[i].fe_id == i
            },
{
    let fields = Field::all();
    let mut items: Vec<Item> = Vec::new();
    let mut i: usize = 0;
    while i < fields.len()
        invariant
            fields@ == Field::listed(),
            i <= fields@.len(),
            items@.len() == i,
            forall|k: int|
                0 <= k < i ==> {
                    &&& (#[trigger] items@[k]).id@ == Field::listed()[k].name()
                    &&& items@[k].value@ == Field::listed()[k].title()
                    &&& items@[k].fe_id == k
                },
        decreases fields@.len() - i,
    {
        items.push(Item { id: fields[i].column(), value: fields[i].label(), fe_id: i });
        i += 1;
    }
    items
}

/// The operators to pick from: one item per token, shown as itself.
pub fn operator_items() -> (items: Vec<Item>)
    ensures
        items@.len() == offered_tokens().len(),
        forall|i: int|
            0 <= i < items@.len() ==> {
                &&& (#[trigger] items@[i]).id@ == offered_tokens()[i]
                &&& items@[i].value@ == offered_tokens()[i]
                &&& items@[i].fe_id == i
            },
{
    let mut items: Vec<Item> = Vec::new();
    items.push(Item { id: "=", value: "=", fe_id: 0 });
    items.push(Item { id: "!=", value: "!=", fe_id: 1 });
    items.push(Item { id: "<", value: "<", fe_id: 2 });
    items.push(Item { id: ">", value: ">", fe_id: 3 });
    items.push(Item { id: ">=", value: ">=", fe_id: 4 });
    items.push(Item { id: "<=", value: "<=", fe_id: 5 });
    items
}

/// What a field list shows before a field is picked. Its text is no field.
pub fn field_placeholder() -> (item: Item)
    ensures
        item.id@ == "default"@,
        item.value@ == "Select a Field"@,
        item.fe_id == 0,
{
    Item { id: "default", value: "Select a Field", fe_id: 0 }
}

/// What an operator list shows before an operator is picked. Its text is no
/// operator.
pub fn operator_placeholder() -> (item: Item)
    ensures
        item.id@ == "default"@,
        item.value@ == "Select an Operator"@,
        item.fe_id == 0,
{
    Item { id: "default", value: "Select an Operator", fe_id: 0 }
}

/// The tokens offered are the tokens that read as a comparison, no more and
/// no fewer.
pub proof fn lemma_offered_tokens_read(op: Seq<char>, value: String)
    ensures
        offered_tokens().contains(op) <==> !(ComparisonOperator::read(op, value) is Default),
{
    let t = offered_tokens();
    assert(t[0] == "="@ && t[1] == "!="@ && t[2] == "<"@ && t[3] == ">"@ && t[4] == ">="@ && t[5]
        == "<="@);
}

/// A row left at the placeholders is rejected: `default` names no field and
/// reads as no comparison.
pub proof fn lemma_placeholder_rejected(value: String)
    ensures
        Field::named("default"@) is None,
        ComparisonOperator::read("default"@, value) is Default,
{
    reveal_strlit("default");
    reveal_strlit("pl_name");
    reveal_strlit("hostname");
    reveal_strlit("sy_snum");
    reveal_strlit("sy_pnum");
    reveal_strlit("sy_mnum");
    reveal_strlit("cb_flag");
    reveal_strlit("discovery_method");
    reveal_strlit("disc_year");
    reveal_strlit("disc_refname");
    reveal_strlit("disc_pubdate");
    reveal_strlit("=");
    reveal_strlit("!=");
    reveal_strlit("<");
    reveal_strlit(">");
    reveal_strlit(">=");
    reveal_strlit("<=");
    let d = "default"@;
    assert(d.len() == 7 && d[0] == 'd' && d[1] == 'e');
    assert forall|f: Field| #[trigger] f.name() != d by {
        let n = f.name();
        if n.len() == 7 {
            assert(n[0] != 'd' || n[1] != 'e');
        }
    }
}

} // verus!

use exoplanet_query::catalog::{field_items, field_placeholder, operator_items, operator_placeholder};
use exoplanet_query::field::Field;
use exoplanet_query::filter::{validate, ValidatedClause, ValidationError};
use exoplanet_query::model::input::{ComparisonOperator, Input, Query};
use exoplanet_query::text::same;

fn filter_row(field: &str, op: &str, value: &str) -> Input {
    Input { field: field.to_string(), comparison_op: op.to_string(), value: value.to_string() }
}

#[test]
fn blank_input_has_empty_parts() {
    let input = Input::new();
    assert_eq!(input.field, "");
    assert_eq!(input.comparison_op, "");
    assert_eq!(input.value, "");
    let by_default = Input::default();
    assert_eq!(by_default.field, "");
    assert_eq!(by_default.comparison_op, "");
    assert_eq!(by_default.value, "");
}

#[test]
fn new_query_has_no_rows() {
    assert!(Query::new().inputs.is_empty());
    assert!(Query::default().inputs.is_empty());
}

#[test]
fn same_compares_character_for_character() {
    assert!(same("", ""));
    assert!(same("pl_name", "pl_name"));
    assert!(!same("pl_name", "pl_nam"));
    assert!(!same("pl_name", "pl_namf"));
    assert!(!same("pl_name", "PL_NAME"));
    assert!(same("é≥", "é≥"));
    assert!(!same("é", "e"));
}

#[test]
fn every_field_is_found_under_its_column_name() {
    let fields = Field::all();
    assert_eq!(fields.len(), 10);
    for field in fields {
        assert_eq!(Field::parse(field.column()), Some(field));
    }
}

#[test]
fn field_columns_and_labels() {
    let expected = [
        (Field::PlName, "pl_name", "Planet Name"),
        (Field::Hostname, "hostname", "Host Name"),
        (Field::SySnum, "sy_snum", "Number of Stars"),
        (Field::SyPnum, "sy_pnum", "Number of Planets"),
        (Field::SyMnum, "sy_mnum", "Number of Moons"),
        (Field::CbFlag, "cb_flag", "Circumbinary Flag"),
        (Field::DiscoveryMethod, "discovery_method", "Discovery Method"),
        (Field::DiscYear, "disc_year", "Discovery Year"),
        (Field::DiscRefname, "disc_refname", "Discovery Reference"),
        (Field::DiscPubdate, "disc_pubdate", "Discovery Publication Date"),
    ];
    assert_eq!(Field::all(), expected.iter().map(|e| e.0).collect::<Vec<_>>());
    for (field, column, label) in expected {
        assert_eq!(field.column(), column);
        assert_eq!(field.label(), label);
    }
}

#[test]
fn names_off_the_allow_list_are_no_field() {
    for name in ["", "default", "id", "pl_name ", " pl_name", "PL_NAME", "pl_name; DROP TABLE exoplanet_data", "1=1", "discoverymethod", "pl_letter"] {
        assert_eq!(Field::parse(name), None);
    }
}

#[test]
fn operator_tokens_parse_to_their_comparison() {
    let v = || "42".to_string();
    assert!(matches!(ComparisonOperator::parse("=", v()), ComparisonOperator::Equals(s) if s == "42"));
    assert!(matches!(ComparisonOperator::parse("!=", v()), ComparisonOperator::NotEquals(s) if s == "42"));
    assert!(matches!(ComparisonOperator::parse("<", v()), ComparisonOperator::LessThan(s) if s == "42"));
    assert!(matches!(ComparisonOperator::parse(">", v()), ComparisonOperator::GreaterThan(s) if s == "42"));
    assert!(matches!(ComparisonOperator::parse("<=", v()), ComparisonOperator::LessThanOrEquals(s) if s == "42"));
    assert!(matches!(ComparisonOperator::parse(">=", v()), ComparisonOperator::GreaterThanOrEquals(s) if s == "42"));
}

#[test]
fn other_operator_text_parses_to_default() {
    for op in ["", "default", "==", "<>", "LIKE", "= ", " =", "=;", "> 0 OR 1=1", "=>", "=<"] {
        let parsed = ComparisonOperator::parse(op, "v".to_string());
        assert!(matches!(&parsed, ComparisonOperator::Default(s) if s == "v"));
        assert!(!parsed.is_comparison());
        assert_eq!(parsed.symbol(), "");
    }
}

#[test]
fn comparison_symbol_and_operand() {
    let cases = [("=", "a"), ("!=", "b"), ("<", "c"), (">", "d"), ("<=", "e"), (">=", "f")];
    for (op, value) in cases {
        let parsed = ComparisonOperator::parse(op, value.to_string());
        assert!(parsed.is_comparison());
        assert_eq!(parsed.symbol(), op);
        assert_eq!(parsed.operand(), value);
    }
}

#[test]
fn validated_clause_needs_a_comparison() {
    let clause = ValidatedClause::new(Field::DiscYear, ComparisonOperator::GreaterThan("2000".to_string())).unwrap();
    assert_eq!(clause.field(), Field::DiscYear);
    assert!(matches!(clause.comparison(), ComparisonOperator::GreaterThan(s) if s == "2000"));
    assert!(ValidatedClause::new(Field::DiscYear, ComparisonOperator::Default("2000".to_string())).is_none());
}

#[test]
fn empty_request_is_valid() {
    assert!(validate(vec![]).unwrap().is_empty());
}

#[test]
fn valid_rows_are_read_in_order() {
    let valid = validate(vec![
        filter_row("hostname", "!=", "Kepler-22"),
        filter_row("sy_pnum", "<=", "3"),
        filter_row("hostname", "=", "x"),
    ])
    .unwrap();
    assert_eq!(valid.len(), 3);
    assert_eq!(valid[0].field(), Field::Hostname);
    assert!(matches!(valid[0].comparison(), ComparisonOperator::NotEquals(s) if s == "Kepler-22"));
    assert_eq!(valid[1].field(), Field::SyPnum);
    assert!(matches!(valid[1].comparison(), ComparisonOperator::LessThanOrEquals(s) if s == "3"));
    assert_eq!(valid[2].field(), Field::Hostname);
    assert!(matches!(valid[2].comparison(), ComparisonOperator::Equals(s) if s == "x"));
}

#[test]
fn unknown_field_is_rejected_with_its_name() {
    let result = validate(vec![filter_row("pl_name", "=", "a"), filter_row("password", "=", "b")]);
    assert!(matches!(result, Err(ValidationError::UnknownField(name)) if name == "password"));
}

#[test]
fn unknown_operator_is_rejected_with_its_text() {
    let result = validate(vec![filter_row("pl_name", "=", "a"), filter_row("hostname", "LIKE", "b")]);
    assert!(matches!(result, Err(ValidationError::UnknownOperator(op)) if op == "LIKE"));
}

#[test]
fn unknown_field_wins_over_an_earlier_unknown_operator() {
    let result = validate(vec![
        filter_row("pl_name", "~", "a"),
        filter_row("hostname", "=", "b"),
        filter_row("nope", "=", "c"),
        filter_row("also_nope", "=", "d"),
    ]);
    assert!(matches!(result, Err(ValidationError::UnknownField(name)) if name == "nope"));
}

#[test]
fn first_unknown_operator_is_the_one_reported() {
    let result = validate(vec![
        filter_row("pl_name", "=", "a"),
        filter_row("hostname", "<>", "b"),
        filter_row("hostname", "==", "c"),
    ]);
    assert!(matches!(result, Err(ValidationError::UnknownOperator(op)) if op == "<>"));
}

#[test]
fn field_that_carries_query_text_is_rejected() {
    let result = validate(vec![filter_row("pl_name = '' OR 1=1 --", "=", "a")]);
    assert!(matches!(result, Err(ValidationError::UnknownField(name)) if name == "pl_name = '' OR 1=1 --"));
}

#[test]
fn untouched_row_is_rejected() {
    let row = filter_row(field_placeholder().id, operator_placeholder().id, "");
    assert!(matches!(validate(vec![row]), Err(ValidationError::UnknownField(name)) if name == "default"));
    let row = filter_row("pl_name", operator_placeholder().id, "");
    assert!(matches!(validate(vec![row]), Err(ValidationError::UnknownOperator(op)) if op == "default"));
    assert!(matches!(validate(vec![Input::new()]), Err(ValidationError::UnknownField(name)) if name.is_empty()));
}

#[test]
fn field_items_list_the_allow_list() {
    let items = field_items();
    assert_eq!(items.len(), 10);
    for (i, item) in items.iter().enumerate() {
        assert_eq!(item.fe_id, i);
        let field = Field::parse(item.id).unwrap();
        assert_eq!(field, Field::all()[i]);
        assert_eq!(item.value, field.label());
    }
    assert_eq!(items[0].id, "pl_name");
    assert_eq!(items[0].value, "Planet Name");
    assert_eq!(items[9].id, "disc_pubdate");
    assert_eq!(items[9].value, "Discovery Publication Date");
}

#[test]
fn operator_items_list_the_operator_set() {
    let items = operator_items();
    let tokens: Vec<&str> = items.iter().map(|item| item.id).collect();
    assert_eq!(tokens, vec!["=", "!=", "<", ">", ">=", "<="]);
    for (i, item) in items.iter().enumerate() {
        assert_eq!(item.fe_id, i);
        assert_eq!(item.value, item.id);
        assert!(ComparisonOperator::parse(item.id, String::new()).is_comparison());
    }
}

#[test]
fn placeholders_show_a_prompt() {
    let field = field_placeholder();
    assert_eq!((field.id, field.value, field.fe_id), ("default", "Select a Field", 0));
    let operator = operator_placeholder();
    assert_eq!((operator.id, operator.value, operator.fe_id), ("default", "Select an Operator", 0));
}

use sql_relations::ast::{
    FunctionArg, Join, JoinConstraint, JoinOperator, TableAlias, TableFactor, TableWithJoins,
};
use sql_relations::error::ErrorKind;
use sql_relations::resolver::{
    analyze_subquery, analyze_table, analyze_table_function, enter_subquery, resolve_relations,
    resolve_table, table_function_schema, AnalyzedOutcome,
};
use sql_relations::rpn::{RelationRPNBuilder, RelationRPNItem};
use sql_relations::schema::{DataField, QualifiedSchema};
use sql_relations::state::AnalyzeQueryState;

type Factor = TableFactor<String, String>;
type Entry = TableWithJoins<String, String>;
type Item = RelationRPNItem<String, String>;

fn names(parts: &[&str]) -> Vec<String> {
    parts.iter().map(|p| p.to_string()).collect()
}

fn table(name: &[&str]) -> Factor {
    TableFactor::Table { name: names(name), alias: None, args: vec![], with_hints: vec![] }
}

fn aliased(name: &[&str], alias: &str) -> Factor {
    TableFactor::Table {
        name: names(name),
        alias: Some(TableAlias { name: alias.to_string(), columns: vec![] }),
        args: vec![],
        with_hints: vec![],
    }
}

fn entry(relation: Factor, joins: Vec<Join<String, String>>) -> Entry {
    TableWithJoins { relation, joins }
}

fn inner_join(relation: Factor, on: &str) -> Join<String, String> {
    Join { relation, join_operator: JoinOperator::Inner(JoinConstraint::On(on.to_string())) }
}

fn fields(cols: &[&str]) -> Vec<DataField> {
    cols.iter().map(|c| DataField::new(c, "Int64", false)).collect()
}

fn column_names(s: &QualifiedSchema) -> Vec<String> {
    s.columns
        .iter()
        .map(|c| {
            let mut parts = c.prefix.clone();
            parts.push(c.field.name.clone());
            parts.join(".")
        })
        .collect()
}

fn table_name(item: &Item) -> Option<Vec<String>> {
    match item {
        RelationRPNItem::Table(t) => Some(t.name.clone()),
        _ => None,
    }
}

fn counts(rpn: &[Item]) -> (usize, usize) {
    let joins = rpn.iter().filter(|i| matches!(i, RelationRPNItem::Join(_))).count();
    (rpn.len() - joins, joins)
}

/// Resolves every operand of `rpn` against a catalog of `(table, columns)` in database `db`.
fn resolve_all(rpn: &Vec<Item>, db: &str, catalog: &[(&str, &[&str])]) -> QualifiedSchema {
    let mut operands = Vec::new();
    for item in rpn {
        if let RelationRPNItem::Table(t) = item {
            let (d, n) = resolve_table(&t.name, &db.to_string()).unwrap();
            let cols = catalog.iter().find(|(name, _)| *name == n).unwrap().1;
            operands.push(analyze_table(d, n, &t.alias, fields(cols)));
        }
    }
    resolve_relations(rpn, operands).unwrap()
}

#[test]
fn empty_from_reads_single_row_relation() {
    let rpn = RelationRPNBuilder::<String, String>::build(vec![]).unwrap();
    assert_eq!(rpn.len(), 1);
    assert_eq!(table_name(&rpn[0]), Some(names(&["system", "one"])));
    let joined = resolve_all(&rpn, "default", &[("one", &["dummy", "extra"])]);
    assert_eq!(column_names(&joined), names(&["system.one.dummy", "system.one.extra"]));
}

#[test]
fn comma_and_join_scenario() {
    let from = vec![
        entry(table(&["a"]), vec![]),
        entry(table(&["b"]), vec![inner_join(table(&["c"]), "b.x = c.x")]),
    ];
    let rpn = RelationRPNBuilder::build(from).unwrap();
    assert_eq!(rpn.len(), 5);
    assert_eq!(table_name(&rpn[0]), Some(names(&["a"])));
    assert_eq!(table_name(&rpn[1]), Some(names(&["b"])));
    assert_eq!(table_name(&rpn[2]), Some(names(&["c"])));
    assert!(matches!(&rpn[3], RelationRPNItem::Join(JoinOperator::Inner(JoinConstraint::On(c))) if c == "b.x = c.x"));
    assert!(matches!(&rpn[4], RelationRPNItem::Join(JoinOperator::CrossJoin)));
    let catalog: [(&str, &[&str]); 3] = [("a", &["id"]), ("b", &["id", "x"]), ("c", &["x", "y"])];
    let joined = resolve_all(&rpn, "db", &catalog);
    assert_eq!(
        column_names(&joined),
        names(&["db.a.id", "db.b.id", "db.b.x", "db.c.x", "db.c.y"])
    );
}

#[test]
fn operand_and_join_counts() {
    let group = TableFactor::NestedJoin(Box::new(entry(
        table(&["b"]),
        vec![inner_join(table(&["c"]), "b.k = c.k")],
    )));
    let from = vec![
        entry(table(&["a"]), vec![]),
        entry(group, vec![]),
        entry(table(&["d"]), vec![inner_join(table(&["e"]), "d.k = e.k")]),
    ];
    let rpn = RelationRPNBuilder::build(from).unwrap();
    assert_eq!(counts(&rpn), (5, 4));
    let single = RelationRPNBuilder::build(vec![entry(table(&["a"]), vec![])]).unwrap();
    assert_eq!(counts(&single), (1, 0));
    let none = RelationRPNBuilder::<String, String>::build(vec![]).unwrap();
    assert_eq!(counts(&none), (1, 0));
}

#[test]
fn inner_join_keeps_column_order() {
    let from = vec![entry(aliased(&["r1"], "r1"), vec![inner_join(aliased(&["r2"], "r2"), "true")])];
    let rpn = RelationRPNBuilder::build(from).unwrap();
    let catalog: [(&str, &[&str]); 2] = [("r1", &["a", "b"]), ("r2", &["c", "d"])];
    let joined = resolve_all(&rpn, "db", &catalog);
    assert_eq!(column_names(&joined), names(&["r1.a", "r1.b", "r2.c", "r2.d"]));
}

#[test]
fn join_never_deduplicates() {
    let left = QualifiedSchema::from_schema(fields(&["id"]), names(&["db", "t"]));
    let right = QualifiedSchema::from_schema(fields(&["id"]), names(&["db", "t"]));
    let joined = QualifiedSchema::join(left, right);
    assert_eq!(column_names(&joined), names(&["db.t.id", "db.t.id"]));
}

#[test]
fn unqualified_reference_resolution() {
    let left = analyze_table("db".to_string(), "t1".to_string(), &None, fields(&["id", "a"]));
    let right = analyze_table("db".to_string(), "t2".to_string(), &None, fields(&["id", "b"]));
    let joined = QualifiedSchema::join(left, right);
    assert_eq!(joined.find_column(&names(&["b"])).unwrap(), 3);
    assert_eq!(joined.find_column(&names(&["a"])).unwrap(), 1);
    let err = joined.find_column(&names(&["id"])).unwrap_err();
    assert_eq!(err.kind, ErrorKind::AmbiguousColumn);
    let err = joined.find_column(&names(&["zzz"])).unwrap_err();
    assert_eq!(err.kind, ErrorKind::UnknownColumn);
    let err = joined.find_column(&vec![]).unwrap_err();
    assert_eq!(err.kind, ErrorKind::UnknownColumn);
}

#[test]
fn qualified_reference_resolution() {
    let alias = |n: &str| Some(TableAlias { name: n.to_string(), columns: vec![] });
    let left = analyze_table("db".to_string(), "t1".to_string(), &alias("x"), fields(&["id"]));
    let right = analyze_table("db".to_string(), "t2".to_string(), &alias("y"), fields(&["id"]));
    let joined = QualifiedSchema::join(left, right);
    assert_eq!(joined.find_column(&names(&["x", "id"])).unwrap(), 0);
    assert_eq!(joined.find_column(&names(&["y", "id"])).unwrap(), 1);
    assert_eq!(joined.find_column(&names(&["id"])).unwrap_err().kind, ErrorKind::AmbiguousColumn);
    assert_eq!(joined.find_column(&names(&["t1", "id"])).unwrap_err().kind, ErrorKind::UnknownColumn);

    let plain = analyze_table("db".to_string(), "t".to_string(), &None, fields(&["c"]));
    assert_eq!(plain.find_column(&names(&["t", "c"])).unwrap(), 0);
    assert_eq!(plain.find_column(&names(&["db", "t", "c"])).unwrap(), 0);
    assert_eq!(plain.find_column(&names(&["other", "t", "c"])).unwrap_err().kind, ErrorKind::UnknownColumn);
    assert_eq!(plain.find_column(&names(&["db", "c"])).unwrap_err().kind, ErrorKind::UnknownColumn);
}

#[test]
fn derived_table_exposes_alias_only() {
    let alias = Some(TableAlias { name: "t".to_string(), columns: vec![] });
    let s = analyze_subquery(AnalyzedOutcome::SelectQuery(fields(&["x", "y"])), &alias).unwrap();
    assert_eq!(column_names(&s), names(&["t.x", "t.y"]));
    for c in &s.columns {
        assert_eq!(c.prefix, names(&["t"]));
    }
    let bare = analyze_subquery(AnalyzedOutcome::SelectQuery(fields(&["x"])), &None).unwrap();
    assert_eq!(column_names(&bare), names(&["x"]));
    let err = analyze_subquery(AnalyzedOutcome::Other, &alias).unwrap_err();
    assert_eq!(err.kind, ErrorKind::LogicalError);
}

#[test]
fn subquery_scenario() {
    // inner statement: SELECT x FROM t
    let inner = RelationRPNBuilder::build(vec![entry(table(&["t"]), vec![])]).unwrap();
    let inner_joined = resolve_all(&inner, "db", &[("t", &["x", "y"])]);
    let x = inner_joined.find_column(&names(&["x"])).unwrap();
    let finalize = vec![inner_joined.columns[x].field.duplicate()];

    let outer = vec![entry(
        TableFactor::Derived {
            lateral: false,
            subquery: Box::new("SELECT x FROM t".to_string()),
            alias: Some(TableAlias { name: "s".to_string(), columns: vec![] }),
        },
        vec![],
    )];
    let rpn = RelationRPNBuilder::build(outer).unwrap();
    assert_eq!(rpn.len(), 1);
    let (subquery, alias) = match &rpn[0] {
        RelationRPNItem::Derived(d) => (d.subquery.as_ref().clone(), &d.alias),
        _ => panic!("expected a derived table"),
    };
    assert_eq!(subquery, "SELECT x FROM t");
    let s = analyze_subquery(AnalyzedOutcome::SelectQuery(finalize), alias).unwrap();
    let joined = resolve_relations(&rpn, vec![s]).unwrap();
    assert_eq!(column_names(&joined), names(&["s.x"]));
}

#[test]
fn lateral_rejected() {
    let lateral = TableFactor::Derived {
        lateral: true,
        subquery: Box::new("SELECT 1".to_string()),
        alias: None,
    };
    let from = vec![entry(table(&["a"]), vec![inner_join(lateral, "true")])];
    let err = RelationRPNBuilder::build(from).unwrap_err();
    assert_eq!(err.kind, ErrorKind::UnImplement);
    assert_eq!(err.message, "Cannot SELECT LATERAL subquery.");
}

#[test]
fn table_hints_rejected() {
    let hinted = TableFactor::Table {
        name: names(&["b"]),
        alias: None,
        args: vec![],
        with_hints: vec!["NOLOCK".to_string()],
    };
    let group = TableFactor::NestedJoin(Box::new(entry(table(&["c"]), vec![inner_join(hinted, "true")])));
    let from = vec![entry(table(&["a"]), vec![]), entry(group, vec![])];
    let err = RelationRPNBuilder::build(from).unwrap_err();
    assert_eq!(err.kind, ErrorKind::SyntaxException);
    assert_eq!(err.message, "MSSQL-specific `WITH (...)` hints is unsupported.");
}

#[test]
fn table_function_classification() {
    let func = TableFactor::Table {
        name: names(&["numbers"]),
        alias: None,
        args: vec![FunctionArg::Unnamed("10".to_string())],
        with_hints: vec![],
    };
    let rpn = RelationRPNBuilder::build(vec![entry(func, vec![])]).unwrap();
    match &rpn[0] {
        RelationRPNItem::TableFunction(f) => {
            assert_eq!(f.name, names(&["numbers"]));
            assert_eq!(f.args.len(), 1);
            assert_eq!(analyze_table_function(f).unwrap(), "numbers");
        }
        _ => panic!("expected a table function"),
    }
    let schema = table_function_schema(fields(&["number"]));
    assert!(schema.columns[0].prefix.is_empty());
    let joined = resolve_relations(&rpn, vec![schema]).unwrap();
    assert_eq!(column_names(&joined), names(&["number"]));
}

#[test]
fn named_table_function_rejected() {
    let func = TableFactor::Table {
        name: names(&["numbers"]),
        alias: Some(TableAlias { name: "n".to_string(), columns: vec![] }),
        args: vec![FunctionArg::Named { name: "count".to_string(), arg: "10".to_string() }],
        with_hints: vec![],
    };
    let err = RelationRPNBuilder::build(vec![entry(func, vec![])]).unwrap_err();
    assert_eq!(err.kind, ErrorKind::SyntaxException);
}

#[test]
fn table_expression_function_rejected() {
    let func: Factor = TableFactor::TableFunction { expr: "f()".to_string(), alias: None };
    let err = RelationRPNBuilder::build(vec![entry(func, vec![])]).unwrap_err();
    assert_eq!(err.kind, ErrorKind::UnImplement);
}

#[test]
fn multi_part_table_function_rejected() {
    let func = TableFactor::Table {
        name: names(&["db", "numbers"]),
        alias: None,
        args: vec![FunctionArg::Unnamed("10".to_string())],
        with_hints: vec![],
    };
    let rpn = RelationRPNBuilder::build(vec![entry(func, vec![])]).unwrap();
    match &rpn[0] {
        RelationRPNItem::TableFunction(f) => {
            let err = analyze_table_function(f).unwrap_err();
            assert_eq!(err.kind, ErrorKind::SyntaxException);
            assert_eq!(err.message, "Table function name must be a single identifier");
        }
        _ => panic!("expected a table function"),
    }
}

#[test]
fn table_name_arity() {
    let db = "current".to_string();
    assert_eq!(resolve_table(&names(&["t"]), &db).unwrap(), ("current".to_string(), "t".to_string()));
    assert_eq!(resolve_table(&names(&["d", "t"]), &db).unwrap(), ("d".to_string(), "t".to_string()));
    let empty = resolve_table(&vec![], &db).unwrap_err();
    assert_eq!(empty.kind, ErrorKind::SyntaxException);
    assert_eq!(empty.message, "Table name is empty");
    let err = resolve_table(&names(&["a", "b", "c"]), &db).unwrap_err();
    assert_eq!(err.kind, ErrorKind::SyntaxException);
    assert_eq!(err.message, "Table name must be [`db`].`table`");
}

#[test]
fn table_prefix_uses_alias_or_database_and_table() {
    let alias = Some(TableAlias { name: "z".to_string(), columns: vec![] });
    let s = analyze_table("d".to_string(), "t".to_string(), &alias, fields(&["a", "b"]));
    assert_eq!(column_names(&s), names(&["z.a", "z.b"]));
    let s = analyze_table("d".to_string(), "t".to_string(), &None, fields(&["a"]));
    assert_eq!(column_names(&s), names(&["d.t.a"]));
    assert_eq!(s.columns[0].field.data_type, "Int64");
}

#[test]
fn malformed_sequence_is_internal_error() {
    let rpn: Vec<Item> = vec![RelationRPNItem::Join(JoinOperator::CrossJoin)];
    assert_eq!(resolve_relations(&rpn, vec![]).unwrap_err().kind, ErrorKind::LogicalError);
    let two = RelationRPNBuilder::build(vec![entry(table(&["a"]), vec![])]).unwrap();
    let extra = vec![QualifiedSchema::none(), QualifiedSchema::none()];
    assert_eq!(resolve_relations(&two, extra).unwrap_err().kind, ErrorKind::LogicalError);
    assert_eq!(resolve_relations(&two, vec![]).unwrap_err().kind, ErrorKind::LogicalError);
    let empty: Vec<Item> = vec![];
    assert_eq!(resolve_relations(&empty, vec![]).unwrap_err().kind, ErrorKind::LogicalError);
}

#[test]
fn create_starts_with_empty_stages() {
    let rpn = RelationRPNBuilder::build(vec![entry(table(&["a"]), vec![])]).unwrap();
    let operand = analyze_table("d".to_string(), "a".to_string(), &None, fields(&["id"]));
    let state: AnalyzeQueryState<String> = AnalyzeQueryState::create(&rpn, vec![operand]).unwrap();
    assert_eq!(column_names(&state.joined_schema), names(&["d.a.id"]));
    assert!(state.filter_predicate.is_none());
    assert!(state.having_predicate.is_none());
    assert!(state.projection_expressions.is_empty());
    assert!(state.group_by_expressions.is_empty());
    assert_eq!(state.before_aggr_schema.len(), 0);
    assert_eq!(state.after_aggr_schema.len(), 0);
    assert!(state.finalize_schema.is_empty());
    assert!(state.projection_aliases.is_empty());
    let failed = AnalyzeQueryState::<String>::create(&rpn, vec![]);
    assert_eq!(failed.err().unwrap().kind, ErrorKind::LogicalError);
}

#[test]
fn subquery_depth_limit() {
    assert_eq!(enter_subquery(0, 2).unwrap(), 1);
    assert_eq!(enter_subquery(1, 2).unwrap(), 2);
    assert_eq!(enter_subquery(2, 2).unwrap_err().kind, ErrorKind::TooDeeplyNested);
}

#[test]
fn many_operands_concatenate_in_source_order() {
    let left = Join {
        relation: aliased(&["c"], "z"),
        join_operator: JoinOperator::LeftOuter(JoinConstraint::Using(names(&["id"]))),
    };
    let from = vec![
        entry(aliased(&["a"], "x"), vec![]),
        entry(aliased(&["b"], "y"), vec![left]),
    ];
    let rpn = RelationRPNBuilder::build(from).unwrap();
    let catalog: [(&str, &[&str]); 3] = [("a", &["id", "p"]), ("b", &["id"]), ("c", &["id", "q"])];
    let joined = resolve_all(&rpn, "db", &catalog);
    assert_eq!(column_names(&joined), names(&["x.id", "x.p", "y.id", "z.id", "z.q"]));
    assert_eq!(joined.find_column(&names(&["y", "id"])).unwrap(), 2);
    assert_eq!(joined.find_column(&names(&["z", "id"])).unwrap(), 3);
    assert_eq!(joined.find_column(&names(&["q"])).unwrap(), 4);
    assert_eq!(joined.find_column(&names(&["id"])).unwrap_err().kind, ErrorKind::AmbiguousColumn);
}

#[test]
fn unsupported_table_function_message() {
    let err = RelationRPNBuilder::<String, String>::build(vec![entry(
        TableFactor::TableFunction { expr: "f()".to_string(), alias: None },
        vec![],
    )])
    .unwrap_err();
    assert_eq!(err.message, "Unsupported table function");
}

use vstd::prelude::*;
use crate::ast::TableAlias;
use crate::error::{ErrorCode, ErrorKind};
use crate::rpn::{RelationRPNItem, TableFunctionRPNItem};
use crate::schema::{
    fields_view, names_view, qualify, ColumnView, DataField, QualifiedSchema,
};

verus! {

/// The view of a list of schemas.
pub open spec fn schemas_view(v: Seq<QualifiedSchema>) -> Seq<Seq<ColumnView>> {
    v.map_values(|s: QualifiedSchema| s@)
}

/// The `(database, table)` pair a table name denotes, if its arity is valid.
pub open spec fn table_of(name: Seq<Seq<char>>, current_database: Seq<char>) -> Option<
    (Seq<char>, Seq<char>),
> {
    if name.len() == 1 {
        Some((current_database, name[0]))
    } else if name.len() == 2 {
        Some((name[0], name[1]))
    } else {
        None
    }
}

/// A bare name is a table of the current database; `db.table` names both.
pub fn resolve_table(name: &Vec<String>, current_database: &String) -> (r: Result<
    (String, String),
    ErrorCode,
>)
    ensures
        match table_of(names_view(name@), current_database@) {
            Some((d, t)) => r matches Ok((rd, rt)) && rd@ == d && rt@ == t,
            None => r matches Err(e) && e.kind == ErrorKind::SyntaxException,
        },
        name@.len() == 0 ==> (r matches Err(e) && e.message@ == "Table name is empty"@),
        name@.len() > 2 ==> (r matches Err(e) && e.message@
            == "Table name must be [`db`].`table`"@),
{
    let n = name.len();
    if n == 0 {
        Err(ErrorCode::new(ErrorKind::SyntaxException, "Table name is empty"))
    } else if n == 1 {
        Ok((current_database.clone(), name[0].clone()))
    } else if n == 2 {
        Ok((name[0].clone(), name[1].clone()))
    } else {
        Err(ErrorCode::new(ErrorKind::SyntaxException, "Table name must be [`db`].`table`"))
    }
}

/// The name path that qualifies a relation's columns: its alias when it has one,
/// else `fallback`.
pub open spec fn alias_prefix(alias: Option<TableAlias>, fallback: Seq<Seq<char>>) -> Seq<
    Seq<char>,
> {
    match alias {
        Some(a) => seq![a.name@],
        None => fallback,
    }
}

fn prefix_of(alias: &Option<TableAlias>, fallback: Vec<String>) -> (r: Vec<String>)
    ensures
        names_view(r@) == alias_prefix(*alias, names_view(fallback@)),
{
    match alias {
        Some(a) => {
            let mut r: Vec<String> = Vec::new();
            r.push(a.name.clone());
            assert(names_view(r@) =~= seq![a.name@]);
            r
        },
        None => fallback,
    }
}

/// The columns of a stored table, qualified by the alias or else by `[database, table]`.
pub fn analyze_table(
    database: String,
    table: String,
    alias: &Option<TableAlias>,
    stored: Vec<DataField>,
) -> (r: QualifiedSchema)
    ensures
        r@ == qualify(fields_view(stored@), alias_prefix(*alias, seq![database@, table@])),
{
    let ghost d = database@;
    let ghost t = table@;
    let mut fallback: Vec<String> = Vec::new();
    fallback.push(database);
    fallback.push(table);
    assert(names_view(fallback@) =~= seq![d, t]);
    let prefix = prefix_of(alias, fallback);
    QualifiedSchema::from_schema(stored, prefix)
}

/// The name to look a table function up by: it must be a single identifier.
pub fn analyze_table_function<E>(item: &TableFunctionRPNItem<E>) -> (r: Result<
    String,
    ErrorCode,
>)
    ensures
        item.name@.len() == 1 ==> (r matches Ok(n) && n@ == item.name@[0]@),
        item.name@.len() == 0 ==> (r matches Err(e) && e.kind == ErrorKind::SyntaxException
            && e.message@ == "Table function name is empty"@),
        item.name@.len() >= 2 ==> (r matches Err(e) && e.kind == ErrorKind::SyntaxException
            && e.message@ == "Table function name must be a single identifier"@),
{
    if item.name.len() >= 2 {
        return Err(
            ErrorCode::new(
                ErrorKind::SyntaxException,
                "Table function name must be a single identifier",
            ),
        );
    }
    if item.name.len() == 0 {
        return Err(ErrorCode::new(ErrorKind::SyntaxException, "Table function name is empty"));
    }
    Ok(item.name[0].clone())
}

/// The columns a table function returns: they carry no prefix, so they are
/// referenced unqualified.
pub fn table_function_schema(fields: Vec<DataField>) -> (r: QualifiedSchema)
    ensures
        r@ == qualify(fields_view(fields@), Seq::empty()),
{
    let empty: Vec<String> = Vec::new();
    assert(names_view(empty@) =~= Seq::<Seq<char>>::empty());
    QualifiedSchema::from_schema(fields, empty)
}

/// What the analysis of a nested statement produced.
#[derive(Debug)]
pub enum AnalyzedOutcome {
    /// A select query, with its finalize schema.
    SelectQuery(Vec<DataField>),
    /// Any other kind of statement.
    Other,
}

/// The columns a derived table exposes: the nested query's finalize schema,
/// qualified by the alias only (unqualified without one).
pub fn analyze_subquery(outcome: AnalyzedOutcome, alias: &Option<TableAlias>) -> (r: Result<
    QualifiedSchema,
    ErrorCode,
>)
    ensures
        match outcome {
            AnalyzedOutcome::SelectQuery(fields) => r matches Ok(s) && s@ == qualify(
                fields_view(fields@),
                alias_prefix(*alias, Seq::empty()),
            ),
            AnalyzedOutcome::Other => r matches Err(e) && e.kind == ErrorKind::LogicalError
                && e.message@
                == "Logical error, subquery analyzed data must be SelectQuery, it's a bug."@,
        },
        forall|i: int|
            alias is Some && r is Ok && 0 <= i < r->Ok_0@.len() ==> #[trigger] r->Ok_0@[i].prefix
                == seq![alias->Some_0.name@],
{
    match outcome {
        AnalyzedOutcome::SelectQuery(fields) => {
            let empty: Vec<String> = Vec::new();
            assert(names_view(empty@) =~= Seq::<Seq<char>>::empty());
            let prefix = prefix_of(alias, empty);
            Ok(QualifiedSchema::from_schema(fields, prefix))
        },
        AnalyzedOutcome::Other => Err(
            ErrorCode::new(
                ErrorKind::LogicalError,
                "Logical error, subquery analyzed data must be SelectQuery, it's a bug.",
            ),
        ),
    }
}

/// Where derived tables may nest no deeper than `max_depth`: the depth inside one
/// more level.
pub fn enter_subquery(depth: usize, max_depth: usize) -> (r: Result<usize, ErrorCode>)
    ensures
        depth < max_depth ==> r == Ok::<usize, ErrorCode>((depth + 1) as usize),
        depth >= max_depth ==> (r matches Err(e) && e.kind == ErrorKind::TooDeeplyNested
            && e.message@ == "Subquery is nested too deeply"@),
{
    if depth < max_depth {
        Ok(depth + 1)
    } else {
        Err(ErrorCode::new(ErrorKind::TooDeeplyNested, "Subquery is nested too deeply"))
    }
}

/// Runs the postfix sequence as a stack program: each operand pushes the next of
/// `operands`, each join pops two schemas and pushes their concatenation.
/// `None` when a join finds fewer than two schemas or the operands run out.
pub open spec fn rpn_stack<Q, E>(
    rpn: Seq<RelationRPNItem<Q, E>>,
    operands: Seq<Seq<ColumnView>>,
) -> Option<(Seq<Seq<ColumnView>>, nat)>
    decreases rpn.len(),
{
    if rpn.len() == 0 {
        Some((Seq::empty(), 0nat))
    } else {
        match rpn_stack(rpn.drop_last(), operands) {
            None => None,
            Some((st, k)) => if rpn.last() is Join {
                if st.len() >= 2 {
                    Some((st.subrange(0, st.len() - 2).push(st[st.len() - 2] + st[st.len() - 1]), k))
                } else {
                    None
                }
            } else if k < operands.len() {
                Some((st.push(operands[k as int]), k + 1))
            } else {
                None
            },
        }
    }
}

/// The composed schema: defined when the program uses every operand and leaves
/// exactly one schema.
pub open spec fn resolved_schema<Q, E>(
    rpn: Seq<RelationRPNItem<Q, E>>,
    operands: Seq<Seq<ColumnView>>,
) -> Option<Seq<ColumnView>> {
    match rpn_stack(rpn, operands) {
        Some((st, k)) => if st.len() == 1 && k == operands.len() {
            Some(st[0])
        } else {
            None
        },
        None => None,
    }
}

proof fn lemma_stack_failure_stays<Q, E>(
    rpn: Seq<RelationRPNItem<Q, E>>,
    operands: Seq<Seq<ColumnView>>,
    i: int,
    n: int,
)
    requires
        0 <= i <= n <= rpn.len(),
        rpn_stack(rpn.subrange(0, i), operands) is None,
    ensures
        rpn_stack(rpn.subrange(0, n), operands) is None,
    decreases n - i,
{
    if n > i {
        lemma_stack_failure_stays(rpn, operands, i, n - 1);
        assert(rpn.subrange(0, n).drop_last() =~= rpn.subrange(0, n - 1));
    }
}

/// Folds the postfix sequence into one schema, given the schema of each operand
/// in order. Anything but exactly one remaining schema is an internal error.
pub fn resolve_relations<Q, E>(
    rpn: &Vec<RelationRPNItem<Q, E>>,
    operands: Vec<QualifiedSchema>,
) -> (r: Result<QualifiedSchema, ErrorCode>)
    ensures
        match resolved_schema(rpn@, schemas_view(operands@)) {
            Some(s) => r matches Ok(rs) && rs@ == s,
            None => r matches Err(e) && e.kind == ErrorKind::LogicalError && e.message@
                == "Logical error: this is relation rpn bug."@,
        },
{
    let ghost ops = schemas_view(operands@);
    let total = operands.len();
    let mut rest = operands;
    let mut stack: Vec<QualifiedSchema> = Vec::new();
    let mut k: usize = 0;
    let mut i: usize = 0;
    #[verifier::loop_isolation(false)]
    while i < rpn.len()
        invariant
            i <= rpn.len(),
            k + rest@.len() == total,
            total == ops.len(),
            schemas_view(rest@) == ops.subrange(k as int, total as int),
            rpn_stack(rpn@.subrange(0, i as int), ops) == Some((schemas_view(stack@), k as nat)),
        decreases rpn.len() - i,
    {
        assert(rpn@.subrange(0, i + 1).drop_last() =~= rpn@.subrange(0, i as int));
        let ghost st = schemas_view(stack@);
        match &rpn[i] {
            RelationRPNItem::Join(_) => {
                if stack.len() < 2 {
                    proof {
                        lemma_stack_failure_stays(rpn@, ops, i + 1, rpn@.len() as int);
                        assert(rpn@.subrange(0, rpn@.len() as int) =~= rpn@);
                    }
                    return Err(ErrorCode::new(ErrorKind::LogicalError, "Logical error: this is relation rpn bug."));
                }
                let right = match stack.pop() {
                    Some(s) => s,
                    None => {
                        return Err(ErrorCode::new(ErrorKind::LogicalError, "Logical error: this is relation rpn bug."));
                    },
                };
                let left = match stack.pop() {
                    Some(s) => s,
                    None => {
                        return Err(ErrorCode::new(ErrorKind::LogicalError, "Logical error: this is relation rpn bug."));
                    },
                };
                stack.push(QualifiedSchema::join(left, right));
                assert(schemas_view(stack@) =~= st.subrange(0, st.len() - 2).push(st[st.len() - 2] + st[st.len() - 1]));
            },
            _ => {
                if rest.len() == 0 {
                    proof {
                        lemma_stack_failure_stays(rpn@, ops, i + 1, rpn@.len() as int);
                        assert(rpn@.subrange(0, rpn@.len() as int) =~= rpn@);
                    }
                    return Err(ErrorCode::new(ErrorKind::LogicalError, "Logical error: this is relation rpn bug."));
                }
                let ghost rv = rest@;
                let operand = rest.remove(0);
                assert(operand@ == schemas_view(rv)[0]);
                stack.push(operand);
                k += 1;
                assert(schemas_view(stack@) =~= st.push(ops[k - 1]));
                assert forall|t: int| 0 <= t < rest@.len() implies #[trigger] schemas_view(rest@)[t]
                    == ops.subrange(k as int, total as int)[t] by {
                    assert(rest@[t] == rv[t + 1]);
                    assert(schemas_view(rv)[t + 1] == ops.subrange(k - 1, total as int)[t + 1]);
                }
                assert(schemas_view(rest@) =~= ops.subrange(k as int, total as int));
            },
        }
        i += 1;
    }
    assert(rpn@.subrange(0, i as int) =~= rpn@);
    if stack.len() != 1 || rest.len() != 0 {
        return Err(ErrorCode::new(ErrorKind::LogicalError, "Logical error: this is relation rpn bug."));
    }
    match stack.pop() {
        Some(s) => Ok(s),
        None => Err(ErrorCode::new(ErrorKind::LogicalError, "Logical error: this is relation rpn bug.")),
    }
}

} // verus!

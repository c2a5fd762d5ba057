use vstd::prelude::*;
use crate::ast::{FunctionArg, Join, JoinOperator, TableAlias, TableFactor, TableWithJoins};
use crate::error::{ErrorCode, ErrorKind};
use crate::schema::names_view;

verus! {

broadcast use vstd::std_specs::vec::group_vec_axioms;

/// A catalog table operand: its name path and optional alias.
#[derive(Debug)]
pub struct TableRPNItem {
    pub name: Vec<String>,
    pub alias: Option<TableAlias>,
}

/// A derived-table operand: the nested query and optional alias.
#[derive(Debug)]
pub struct DerivedRPNItem<Q> {
    pub subquery: Box<Q>,
    pub alias: Option<TableAlias>,
}

/// A table-function operand: its name path and arguments.
#[derive(Debug)]
pub struct TableFunctionRPNItem<E> {
    pub name: Vec<String>,
    pub args: Vec<FunctionArg<E>>,
}

/// One token of the postfix relation sequence.
#[derive(Debug)]
pub enum RelationRPNItem<Q, E> {
    Table(TableRPNItem),
    TableFunction(TableFunctionRPNItem<E>),
    Derived(DerivedRPNItem<Q>),
    Join(JoinOperator<E>),
}

/// Why a FROM clause is rejected: the error's kind and message.
pub type Rejection = (ErrorKind, Seq<char>);

/// The postfix tokens of one relation, or the error that rejects it.
pub open spec fn factor_rpn<Q, E>(f: TableFactor<Q, E>) -> Result<
    Seq<RelationRPNItem<Q, E>>,
    Rejection,
>
    decreases f, 0nat,
{
    match f {
        TableFactor::Table { name, alias, args, with_hints } => {
            if with_hints.len() > 0 {
                Err((ErrorKind::SyntaxException, "MSSQL-specific `WITH (...)` hints is unsupported."@))
            } else if args.len() == 0 {
                Ok(seq![RelationRPNItem::Table(TableRPNItem { name, alias })])
            } else if alias is None {
                Ok(seq![RelationRPNItem::TableFunction(TableFunctionRPNItem { name, args })])
            } else {
                Err((ErrorKind::SyntaxException, "Table function cannot named."@))
            }
        },
        TableFactor::Derived { lateral, subquery, alias } => {
            if lateral {
                Err((ErrorKind::UnImplement, "Cannot SELECT LATERAL subquery."@))
            } else {
                Ok(seq![RelationRPNItem::Derived(DerivedRPNItem { subquery, alias })])
            }
        },
        TableFactor::TableFunction { .. } => Err(
            (ErrorKind::UnImplement, "Unsupported table function"@),
        ),
        TableFactor::NestedJoin(b) => joins_rpn(*b, b.joins@.len()),
    }
}

/// The postfix tokens of `t`'s base relation and its first `n` joins: each joined
/// relation is followed by its join operator.
pub open spec fn joins_rpn<Q, E>(t: TableWithJoins<Q, E>, n: nat) -> Result<
    Seq<RelationRPNItem<Q, E>>,
    Rejection,
>
    decreases t, n,
{
    if n == 0 {
        factor_rpn(t.relation)
    } else if n > t.joins@.len() {
        Err((ErrorKind::LogicalError, Seq::empty()))
    } else {
        match joins_rpn(t, (n - 1) as nat) {
            Err(k) => Err(k),
            Ok(s) => {
                let j = t.joins@[n - 1];
                match factor_rpn(j.relation) {
                    Err(k) => Err(k),
                    Ok(s2) => Ok(s + s2 + seq![RelationRPNItem::Join(j.join_operator)]),
                }
            },
        }
    }
}

/// The postfix tokens of one FROM entry.
pub open spec fn entry_rpn<Q, E>(t: TableWithJoins<Q, E>) -> Result<
    Seq<RelationRPNItem<Q, E>>,
    Rejection,
> {
    joins_rpn(t, t.joins@.len())
}

/// The postfix tokens of the first `n` FROM entries: every entry after the first
/// is followed by an implicit cross join.
pub open spec fn entries_rpn<Q, E>(froms: Seq<TableWithJoins<Q, E>>, n: nat) -> Result<
    Seq<RelationRPNItem<Q, E>>,
    Rejection,
>
    decreases n,
{
    if n == 0 || n > froms.len() {
        Ok(Seq::empty())
    } else {
        match entries_rpn(froms, (n - 1) as nat) {
            Err(k) => Err(k),
            Ok(s) => match entry_rpn(froms[n - 1]) {
                Err(k) => Err(k),
                Ok(s2) => if n == 1 {
                    Ok(s + s2)
                } else {
                    Ok(s + s2 + seq![RelationRPNItem::Join(JoinOperator::CrossJoin)])
                },
            },
        }
    }
}

/// The postfix tokens of a whole, non-empty FROM clause.
pub open spec fn from_rpn<Q, E>(froms: Seq<TableWithJoins<Q, E>>) -> Result<
    Seq<RelationRPNItem<Q, E>>,
    Rejection,
> {
    entries_rpn(froms, froms.len())
}

/// Whether an item is the single-row system relation `system.one`.
pub open spec fn is_dummy_table<Q, E>(item: RelationRPNItem<Q, E>) -> bool {
    match item {
        RelationRPNItem::Table(t) => names_view(t.name@) == seq!["system"@, "one"@] && t.alias is None,
        _ => false,
    }
}

proof fn lemma_joins_error_stays<Q, E>(t: TableWithJoins<Q, E>, i: nat, n: nat)
    requires
        i <= n <= t.joins@.len(),
        joins_rpn(t, i) is Err,
    ensures
        joins_rpn(t, n) == joins_rpn(t, i),
    decreases n - i,
{
    if n > i {
        lemma_joins_error_stays(t, i, (n - 1) as nat);
    }
}

proof fn lemma_entries_error_stays<Q, E>(froms: Seq<TableWithJoins<Q, E>>, i: nat, n: nat)
    requires
        i <= n <= froms.len(),
        entries_rpn(froms, i) is Err,
    ensures
        entries_rpn(froms, n) == entries_rpn(froms, i),
    decreases n - i,
{
    if n > i {
        lemma_entries_error_stays(froms, i, (n - 1) as nat);
    }
}

/// Flattens a FROM clause into postfix order.
pub struct RelationRPNBuilder<Q, E> {
    pub rpn: Vec<RelationRPNItem<Q, E>>,
}

impl<Q, E> RelationRPNBuilder<Q, E> {
    /// The postfix sequence of `exprs`; an empty FROM clause reads the single-row
    /// relation `system.one`.
    pub fn build(exprs: Vec<TableWithJoins<Q, E>>) -> (r: Result<
        Vec<RelationRPNItem<Q, E>>,
        ErrorCode,
    >)
        ensures
            exprs@.len() == 0 ==> r is Ok && r->Ok_0@.len() == 1 && is_dummy_table(r->Ok_0@[0]),
            exprs@.len() > 0 ==> match r {
                Ok(v) => from_rpn(exprs@) == Ok::<_, Rejection>(v@),
                Err(e) => from_rpn(exprs@) == Err::<Seq<RelationRPNItem<Q, E>>, _>((e.kind, e.message@)),
            },
    {
        let mut builder = RelationRPNBuilder { rpn: Vec::new() };
        if exprs.len() == 0 {
            builder.visit_dummy_table();
            return Ok(builder.rpn);
        }
        match builder.visit(exprs) {
            Ok(()) => Ok(builder.rpn),
            Err(e) => Err(e),
        }
    }

    fn visit_dummy_table(&mut self)
        ensures
            final(self).rpn@.len() == old(self).rpn@.len() + 1,
            final(self).rpn@.drop_last() == old(self).rpn@,
            is_dummy_table(final(self).rpn@.last()),
    {
        let mut name: Vec<String> = Vec::new();
        name.push("system".to_owned());
        name.push("one".to_owned());
        assert(names_view(name@) =~= seq!["system"@, "one"@]);
        self.rpn.push(RelationRPNItem::Table(TableRPNItem { name, alias: None }));
    }

    fn visit(&mut self, exprs: Vec<TableWithJoins<Q, E>>) -> (r: Result<(), ErrorCode>)
        ensures
            match from_rpn(exprs@) {
                Ok(s) => r is Ok && final(self).rpn@ == old(self).rpn@ + s,
                Err(k) => r is Err && r->Err_0.kind == k.0 && r->Err_0.message@ == k.1,
            },
    {
        let total = exprs.len();
        let ghost all = exprs@;
        let ghost start = self.rpn@;
        let mut rest = exprs;
        let mut i: usize = 0;
        #[verifier::loop_isolation(false)]
        while rest.len() > 0
            invariant
                i + rest@.len() == all.len(),
                all.len() == total,
                rest@ == all.subrange(i as int, all.len() as int),
                entries_rpn(all, i as nat) matches Ok(s) && self.rpn@ == start + s,
            decreases rest.len(),
        {
            let expr = rest.remove(0);
            assert(expr == all[i as int]);
            match self.visit_joins(expr) {
                Ok(()) => {},
                Err(e) => {
                    proof {
                        lemma_entries_error_stays(all, (i + 1) as nat, all.len());
                    }
                    return Err(e);
                },
            }
            if i > 0 {
                self.rpn.push(RelationRPNItem::Join(JoinOperator::CrossJoin));
            }
            i += 1;
            assert(rest@ =~= all.subrange(i as int, all.len() as int));
            proof {
                let s = entries_rpn(all, (i - 1) as nat)->Ok_0;
                let s2 = entry_rpn(all[i - 1])->Ok_0;
                if i == 1 {
                    assert(self.rpn@ =~= start + (s + s2));
                } else {
                    assert(self.rpn@ =~= start + (s + s2 + seq![RelationRPNItem::Join(JoinOperator::CrossJoin)]));
                }
            }
        }
        Ok(())
    }

    fn visit_joins(&mut self, expr: TableWithJoins<Q, E>) -> (r: Result<(), ErrorCode>)
        ensures
            match entry_rpn(expr) {
                Ok(s) => r is Ok && final(self).rpn@ == old(self).rpn@ + s,
                Err(k) => r is Err && r->Err_0.kind == k.0 && r->Err_0.message@ == k.1,
            },
        decreases expr, 1nat,
    {
        let total = expr.joins.len();
        let ghost t = expr;
        let ghost start = self.rpn@;
        let TableWithJoins { relation, joins } = expr;
        match self.visit_table_factor(relation) {
            Ok(()) => {},
            Err(e) => {
                proof {
                    lemma_joins_error_stays(t, 0, t.joins@.len());
                }
                return Err(e);
            },
        }
        let mut rest = joins;
        let mut k: usize = 0;
        #[verifier::loop_isolation(false)]
        while rest.len() > 0
            invariant
                k + rest@.len() == t.joins@.len(),
                t.joins@.len() == total,
                rest@ == t.joins@.subrange(k as int, t.joins@.len() as int),
                joins_rpn(t, k as nat) matches Ok(s) && self.rpn@ == start + s,
            decreases rest.len(),
        {
            let join = rest.remove(0);
            assert(join == t.joins@[k as int]);
            let Join { relation, join_operator } = join;
            proof {
                assert(decreases_to!(t.joins => t.joins[k as int]));
                assert(decreases_to!(t => t.joins[k as int].relation));
                assert(decreases_to!(t => relation));
            }
            match self.visit_table_factor(relation) {
                Ok(()) => {},
                Err(e) => {
                    proof {
                        lemma_joins_error_stays(t, (k + 1) as nat, t.joins@.len());
                    }
                    return Err(e);
                },
            }
            self.rpn.push(RelationRPNItem::Join(join_operator));
            k += 1;
            assert(rest@ =~= t.joins@.subrange(k as int, t.joins@.len() as int));
            proof {
                let s = joins_rpn(t, (k - 1) as nat)->Ok_0;
                let s2 = factor_rpn(t.joins@[k - 1].relation)->Ok_0;
                assert(self.rpn@ =~= start + (s + s2 + seq![RelationRPNItem::Join(t.joins@[k - 1].join_operator)]));
            }
        }
        Ok(())
    }

    fn visit_table_factor(&mut self, factor: TableFactor<Q, E>) -> (r: Result<(), ErrorCode>)
        ensures
            match factor_rpn(factor) {
                Ok(s) => r is Ok && final(self).rpn@ == old(self).rpn@ + s,
                Err(k) => r is Err && r->Err_0.kind == k.0 && r->Err_0.message@ == k.1,
            },
            !(factor is NestedJoin) && r is Err ==> final(self).rpn@ == old(self).rpn@,
        decreases factor, 0nat,
    {
        let ghost start = self.rpn@;
        match factor {
            TableFactor::Table { name, alias, args, with_hints } => {
                if with_hints.len() > 0 {
                    return Err(
                        ErrorCode::new(
                            ErrorKind::SyntaxException,
                            "MSSQL-specific `WITH (...)` hints is unsupported.",
                        ),
                    );
                }
                if args.len() == 0 {
                    self.visit_table(name, alias);
                    assert(self.rpn@ =~= start + factor_rpn(factor)->Ok_0);
                    Ok(())
                } else if alias.is_none() {
                    self.visit_table_function(name, args);
                    assert(self.rpn@ =~= start + factor_rpn(factor)->Ok_0);
                    Ok(())
                } else {
                    Err(ErrorCode::new(ErrorKind::SyntaxException, "Table function cannot named."))
                }
            },
            TableFactor::Derived { lateral, subquery, alias } => {
                if lateral {
                    return Err(
                        ErrorCode::new(ErrorKind::UnImplement, "Cannot SELECT LATERAL subquery."),
                    );
                }
                self.rpn.push(RelationRPNItem::Derived(DerivedRPNItem { subquery, alias }));
                assert(self.rpn@ =~= start + factor_rpn(factor)->Ok_0);
                Ok(())
            },
            TableFactor::NestedJoin(joins) => self.visit_joins(*joins),
            TableFactor::TableFunction { .. } => {
                Err(ErrorCode::new(ErrorKind::UnImplement, "Unsupported table function"))
            },
        }
    }

    fn visit_table(&mut self, name: Vec<String>, alias: Option<TableAlias>)
        ensures
            final(self).rpn@ == old(self).rpn@.push(
                RelationRPNItem::Table(TableRPNItem { name, alias }),
            ),
    {
        self.rpn.push(RelationRPNItem::Table(TableRPNItem { name, alias }));
    }

    fn visit_table_function(&mut self, name: Vec<String>, args: Vec<FunctionArg<E>>)
        ensures
            final(self).rpn@ == old(self).rpn@.push(
                RelationRPNItem::TableFunction(TableFunctionRPNItem { name, args }),
            ),
    {
        self.rpn.push(RelationRPNItem::TableFunction(TableFunctionRPNItem { name, args }));
    }
}

} // verus!

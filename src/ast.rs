use vstd::prelude::*;

verus! {

/// `AS name (col, ...)` after a relation.
#[derive(Debug)]
pub struct TableAlias {
    pub name: String,
    pub columns: Vec<String>,
}

/// An argument of a table function; `E` is the expression type of the parser.
#[derive(Debug)]
pub enum FunctionArg<E> {
    Named { name: String, arg: E },
    Unnamed(E),
}

#[derive(Debug)]
pub enum JoinConstraint<E> {
    On(E),
    Using(Vec<String>),
    Natural,
    NoConstraint,
}

#[derive(Debug)]
pub enum JoinOperator<E> {
    Inner(JoinConstraint<E>),
    LeftOuter(JoinConstraint<E>),
    RightOuter(JoinConstraint<E>),
    FullOuter(JoinConstraint<E>),
    CrossJoin,
    CrossApply,
    OuterApply,
}

/// One relation of a FROM clause. `Q` is the nested query type, `E` the expression type.
#[derive(Debug)]
pub enum TableFactor<Q, E> {
    /// A catalog table, or a table function when `args` is not empty.
    Table {
        name: Vec<String>,
        alias: Option<TableAlias>,
        args: Vec<FunctionArg<E>>,
        with_hints: Vec<E>,
    },
    /// A parenthesised subquery.
    Derived { lateral: bool, subquery: Box<Q>, alias: Option<TableAlias> },
    /// `TABLE(<expr>) [AS alias]`.
    TableFunction { expr: E, alias: Option<TableAlias> },
    /// A parenthesised join group.
    NestedJoin(Box<TableWithJoins<Q, E>>),
}

#[derive(Debug)]
pub struct Join<Q, E> {
    pub relation: TableFactor<Q, E>,
    pub join_operator: JoinOperator<E>,
}

/// A top-level FROM entry: a relation and the chain of joins that follows it.
#[derive(Debug)]
pub struct TableWithJoins<Q, E> {
    pub relation: TableFactor<Q, E>,
    pub joins: Vec<Join<Q, E>>,
}

} // verus!

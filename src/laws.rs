use vstd::prelude::*;
use crate::ast::{JoinOperator, TableFactor, TableWithJoins};
use crate::resolver::{resolved_schema, rpn_stack};
use crate::rpn::{Rejection, entries_rpn, factor_rpn, from_rpn, is_dummy_table, joins_rpn, RelationRPNItem};
use crate::schema::{column_matches, match_count, qualify, ColumnView, FieldView};

verus! {

broadcast use vstd::std_specs::vec::group_vec_axioms;

/// How many operands (tables, table functions, derived tables) a sequence holds.
pub open spec fn operand_count<Q, E>(s: Seq<RelationRPNItem<Q, E>>) -> nat
    decreases s.len(),
{
    if s.len() == 0 {
        0
    } else {
        operand_count(s.drop_last()) + if s.last() is Join {
            0nat
        } else {
            1nat
        }
    }
}

/// How many join operators a sequence holds.
pub open spec fn join_count<Q, E>(s: Seq<RelationRPNItem<Q, E>>) -> nat
    decreases s.len(),
{
    if s.len() == 0 {
        0
    } else {
        join_count(s.drop_last()) + if s.last() is Join {
            1nat
        } else {
            0nat
        }
    }
}

/// How many relations a table factor names, counting inside join groups.
pub open spec fn factor_relations<Q, E>(f: TableFactor<Q, E>) -> nat
    decreases f, 0nat,
{
    match f {
        TableFactor::NestedJoin(b) => joins_relations(*b, b.joins@.len()),
        _ => 1,
    }
}

/// Relations named by `t`'s base relation and its first `n` joins.
pub open spec fn joins_relations<Q, E>(t: TableWithJoins<Q, E>, n: nat) -> nat
    decreases t, n,
{
    if n == 0 {
        factor_relations(t.relation)
    } else if n > t.joins@.len() {
        0
    } else {
        joins_relations(t, (n - 1) as nat) + factor_relations(t.joins@[n - 1].relation)
    }
}

/// Relations named by the first `n` FROM entries.
pub open spec fn entries_relations<Q, E>(froms: Seq<TableWithJoins<Q, E>>, n: nat) -> nat
    decreases n,
{
    if n == 0 || n > froms.len() {
        0
    } else {
        entries_relations(froms, (n - 1) as nat) + joins_relations(
            froms[n - 1],
            froms[n - 1].joins@.len(),
        )
    }
}

/// Whether a table factor carries table hints or is a LATERAL derived table,
/// looking inside join groups.
pub open spec fn factor_has_hint_or_lateral<Q, E>(f: TableFactor<Q, E>) -> bool
    decreases f, 0nat,
{
    match f {
        TableFactor::Table { with_hints, .. } => with_hints.len() > 0,
        TableFactor::Derived { lateral, .. } => lateral,
        TableFactor::TableFunction { .. } => false,
        TableFactor::NestedJoin(b) => joins_have_hint_or_lateral(*b, b.joins@.len()),
    }
}

pub open spec fn joins_have_hint_or_lateral<Q, E>(t: TableWithJoins<Q, E>, n: nat) -> bool
    decreases t, n,
{
    if n == 0 {
        factor_has_hint_or_lateral(t.relation)
    } else if n > t.joins@.len() {
        false
    } else {
        joins_have_hint_or_lateral(t, (n - 1) as nat) || factor_has_hint_or_lateral(
            t.joins@[n - 1].relation,
        )
    }
}

pub open spec fn entries_have_hint_or_lateral<Q, E>(
    froms: Seq<TableWithJoins<Q, E>>,
    n: nat,
) -> bool
    decreases n,
{
    if n == 0 || n > froms.len() {
        false
    } else {
        entries_have_hint_or_lateral(froms, (n - 1) as nat) || joins_have_hint_or_lateral(
            froms[n - 1],
            froms[n - 1].joins@.len(),
        )
    }
}

proof fn lemma_counts_concat<Q, E>(a: Seq<RelationRPNItem<Q, E>>, b: Seq<RelationRPNItem<Q, E>>)
    ensures
        operand_count(a + b) == operand_count(a) + operand_count(b),
        join_count(a + b) == join_count(a) + join_count(b),
    decreases b.len(),
{
    if b.len() == 0 {
        assert(a + b =~= a);
    } else {
        lemma_counts_concat(a, b.drop_last());
        assert((a + b).drop_last() =~= a + b.drop_last());
    }
}

proof fn lemma_counts_single<Q, E>(x: RelationRPNItem<Q, E>)
    ensures
        operand_count(seq![x]) == if x is Join { 0nat } else { 1nat },
        join_count(seq![x]) == if x is Join { 1nat } else { 0nat },
{
    assert(seq![x].drop_last() =~= Seq::<RelationRPNItem<Q, E>>::empty());
    assert(seq![x].last() == x);
    assert(operand_count(Seq::<RelationRPNItem<Q, E>>::empty()) == 0);
    assert(join_count(Seq::<RelationRPNItem<Q, E>>::empty()) == 0);
}

/// Facts about one table factor: counts on success, the kind of any rejection,
/// and that hints and LATERAL are rejected.
proof fn lemma_factor_facts<Q, E>(f: TableFactor<Q, E>)
    ensures
        factor_rpn(f) is Ok ==> operand_count(factor_rpn(f)->Ok_0) == factor_relations(f)
            && join_count(factor_rpn(f)->Ok_0) + 1 == operand_count(factor_rpn(f)->Ok_0),
        factor_rpn(f) is Err ==> factor_rpn(f)->Err_0.0.is_unsupported(),
        factor_has_hint_or_lateral(f) ==> factor_rpn(f) is Err,
    decreases f, 0nat,
{
    match f {
        TableFactor::NestedJoin(b) => {
            lemma_joins_facts(*b, b.joins@.len());
        },
        _ => {
            if factor_rpn(f) is Ok {
                lemma_counts_single(factor_rpn(f)->Ok_0[0]);
                assert(factor_rpn(f)->Ok_0 =~= seq![factor_rpn(f)->Ok_0[0]]);
            }
        },
    }
}

proof fn lemma_joins_facts<Q, E>(t: TableWithJoins<Q, E>, n: nat)
    requires
        n <= t.joins@.len(),
    ensures
        joins_rpn(t, n) is Ok ==> operand_count(joins_rpn(t, n)->Ok_0) == joins_relations(t, n)
            && join_count(joins_rpn(t, n)->Ok_0) + 1 == operand_count(joins_rpn(t, n)->Ok_0),
        joins_rpn(t, n) is Err ==> joins_rpn(t, n)->Err_0.0.is_unsupported(),
        joins_have_hint_or_lateral(t, n) ==> joins_rpn(t, n) is Err,
    decreases t, n,
{
    if n == 0 {
        lemma_factor_facts(t.relation);
    } else {
        lemma_joins_facts(t, (n - 1) as nat);
        assert(decreases_to!(t.joins => t.joins[n - 1]));
        let j = t.joins@[n - 1];
        lemma_factor_facts(j.relation);
        if joins_rpn(t, n) is Ok {
            let s = joins_rpn(t, (n - 1) as nat)->Ok_0;
            let s2 = factor_rpn(j.relation)->Ok_0;
            let x = RelationRPNItem::<Q, E>::Join(j.join_operator);
            lemma_counts_concat(s, s2);
            lemma_counts_concat(s + s2, seq![x]);
            lemma_counts_single(x);
        }
    }
}

proof fn lemma_entries_facts<Q, E>(froms: Seq<TableWithJoins<Q, E>>, n: nat)
    requires
        n <= froms.len(),
    ensures
        n > 0 && entries_rpn(froms, n) is Ok ==> operand_count(entries_rpn(froms, n)->Ok_0)
            == entries_relations(froms, n) && join_count(entries_rpn(froms, n)->Ok_0) + 1
            == operand_count(entries_rpn(froms, n)->Ok_0),
        entries_rpn(froms, n) is Err ==> entries_rpn(froms, n)->Err_0.0.is_unsupported(),
        entries_have_hint_or_lateral(froms, n) ==> entries_rpn(froms, n) is Err,
    decreases n,
{
    if n > 0 {
        lemma_entries_facts(froms, (n - 1) as nat);
        let t = froms[n - 1];
        lemma_joins_facts(t, t.joins@.len());
        if entries_rpn(froms, n) is Ok {
            let s = entries_rpn(froms, (n - 1) as nat)->Ok_0;
            let s2 = joins_rpn(t, t.joins@.len())->Ok_0;
            let x = RelationRPNItem::<Q, E>::Join(JoinOperator::CrossJoin);
            lemma_counts_concat(s, s2);
            lemma_counts_concat(s + s2, seq![x]);
            lemma_counts_single(x);
            if n == 1 {
                assert(s =~= Seq::<RelationRPNItem<Q, E>>::empty());
                assert(operand_count(s) == 0);
                assert(join_count(s) == 0);
                assert(entries_relations(froms, 0) == 0);
            }
        }
    }
}

/// A FROM clause with `n` top-level entries and `m` joins (counted inside join
/// groups too) flattens to `n + m` operands and `n + m - 1` join operators; an
/// empty one to the single-row relation and no operator. `rpn` is what the
/// builder returns.
pub proof fn law_rpn_counts<Q, E>(
    froms: Seq<TableWithJoins<Q, E>>,
    rpn: Seq<RelationRPNItem<Q, E>>,
)
    requires
        froms.len() == 0 ==> rpn.len() == 1 && is_dummy_table(rpn[0]),
        froms.len() > 0 ==> from_rpn(froms) == Ok::<_, Rejection>(rpn),
    ensures
        froms.len() == 0 ==> operand_count(rpn) == 1 && join_count(rpn) == 0,
        froms.len() > 0 ==> operand_count(rpn) == entries_relations(froms, froms.len())
            && join_count(rpn) + 1 == operand_count(rpn),
{
    if froms.len() == 0 {
        assert(rpn =~= seq![rpn[0]]);
        lemma_counts_single(rpn[0]);
    } else {
        lemma_entries_facts(froms, froms.len());
    }
}

/// Table hints and LATERAL derived tables, anywhere in a FROM clause, make the
/// clause fail with an unsupported-construct error; and every rejection of a
/// FROM clause is of that kind.
pub proof fn law_hints_and_lateral_rejected<Q, E>(froms: Seq<TableWithJoins<Q, E>>)
    ensures
        entries_have_hint_or_lateral(froms, froms.len()) ==> from_rpn(froms) is Err,
        from_rpn(froms) is Err ==> from_rpn(froms)->Err_0.0.is_unsupported(),
{
    lemma_entries_facts(froms, froms.len());
}

/// Joining two relations yields the left relation's columns followed by the
/// right relation's, in order, with nothing removed.
pub proof fn law_join_keeps_column_order<Q, E>(
    left: RelationRPNItem<Q, E>,
    right: RelationRPNItem<Q, E>,
    op: JoinOperator<E>,
    s1: Seq<ColumnView>,
    s2: Seq<ColumnView>,
)
    requires
        !(left is Join),
        !(right is Join),
    ensures
        resolved_schema(seq![left, right, RelationRPNItem::Join(op)], seq![s1, s2]) == Some(
            s1 + s2,
        ),
{
    let rpn = seq![left, right, RelationRPNItem::Join(op)];
    assert(rpn.drop_last() =~= seq![left, right]);
    assert(seq![left, right].drop_last() =~= seq![left]);
    assert(seq![left].drop_last() =~= Seq::<RelationRPNItem<Q, E>>::empty());
    let ops = seq![s1, s2];
    assert(rpn_stack(Seq::<RelationRPNItem<Q, E>>::empty(), ops) == Some(
        (Seq::<Seq<ColumnView>>::empty(), 0nat),
    ));
    assert(Seq::<Seq<ColumnView>>::empty().push(s1) =~= seq![s1]);
    assert(rpn_stack(seq![left], ops) == Some((seq![s1], 1nat)));
    assert(seq![s1].push(s2) =~= seq![s1, s2]);
    assert(rpn_stack(seq![left, right], ops) == Some((seq![s1, s2], 2nat)));
    let st = seq![s1, s2];
    assert(st.subrange(0, 0).push(st[0] + st[1]) =~= seq![s1 + s2]);
}

/// The columns a reference denotes in a joined schema are those it denotes in
/// each side: a name found once in one side only resolves, one found in both is
/// ambiguous.
pub proof fn law_reference_in_join(s1: Seq<ColumnView>, s2: Seq<ColumnView>, path: Seq<Seq<char>>)
    ensures
        match_count(s1 + s2, path) == match_count(s1, path) + match_count(s2, path),
        match_count(s1, path) + match_count(s2, path) == 1 ==> match_count(s1 + s2, path) == 1,
        match_count(s1, path) >= 1 && match_count(s2, path) >= 1 ==> match_count(s1 + s2, path)
            >= 2,
    decreases s2.len(),
{
    if s2.len() == 0 {
        assert(s1 + s2 =~= s1);
    } else {
        law_reference_in_join(s1, s2.drop_last(), path);
        assert((s1 + s2).drop_last() =~= s1 + s2.drop_last());
    }
}

/// A reference `b.name` denotes no column of a relation aliased `a`, `a != b`.
pub proof fn law_other_alias_matches_none(f: Seq<FieldView>, a: Seq<char>, b: Seq<char>, name: Seq<char>)
    requires
        a != b,
    ensures
        match_count(qualify(f, seq![a]), seq![b, name]) == 0,
    decreases f.len(),
{
    if f.len() > 0 {
        law_other_alias_matches_none(f.drop_last(), a, b, name);
        assert(qualify(f, seq![a]).drop_last() =~= qualify(f.drop_last(), seq![a]));
        let c = qualify(f, seq![a]).last();
        let path = seq![b, name];
        assert(path.drop_last() =~= seq![b]);
        assert(c.prefix == seq![a]);
        assert(c.prefix.subrange(0, 1) =~= seq![a]);
        assert(seq![a][0] != seq![b][0]);
        assert(!column_matches(c, path));
    }
}

/// A reference qualified by the alias `b` of the right side denotes only columns
/// of that side, whatever the left side, aliased `a`, holds.
pub proof fn law_alias_qualified_reference(
    f1: Seq<FieldView>,
    f2: Seq<FieldView>,
    a: Seq<char>,
    b: Seq<char>,
    name: Seq<char>,
)
    requires
        a != b,
    ensures
        match_count(qualify(f1, seq![a]) + qualify(f2, seq![b]), seq![b, name]) == match_count(
            qualify(f2, seq![b]),
            seq![b, name],
        ),
{
    law_reference_in_join(qualify(f1, seq![a]), qualify(f2, seq![b]), seq![b, name]);
    law_other_alias_matches_none(f1, a, b, name);
}

/// The schemas of a list, one after another.
pub open spec fn concat_all(s: Seq<Seq<ColumnView>>) -> Seq<ColumnView>
    decreases s.len(),
{
    if s.len() == 0 {
        Seq::empty()
    } else {
        concat_all(s.drop_last()) + s.last()
    }
}

/// How many columns a reference denotes, summed over a list of schemas.
pub open spec fn count_in_all(ops: Seq<Seq<ColumnView>>, path: Seq<Seq<char>>) -> nat
    decreases ops.len(),
{
    if ops.len() == 0 {
        0
    } else {
        count_in_all(ops.drop_last(), path) + match_count(ops.last(), path)
    }
}

proof fn lemma_stack_concatenates<Q, E>(
    rpn: Seq<RelationRPNItem<Q, E>>,
    ops: Seq<Seq<ColumnView>>,
)
    ensures
        rpn_stack(rpn, ops) is Some ==> rpn_stack(rpn, ops)->Some_0.1 <= ops.len() && concat_all(
            rpn_stack(rpn, ops)->Some_0.0,
        ) == concat_all(ops.subrange(0, rpn_stack(rpn, ops)->Some_0.1 as int)),
    decreases rpn.len(),
{
    if rpn.len() == 0 {
        assert(ops.subrange(0, 0) =~= Seq::<Seq<ColumnView>>::empty());
    } else {
        lemma_stack_concatenates(rpn.drop_last(), ops);
        if let Some((st, k)) = rpn_stack(rpn.drop_last(), ops) {
            if rpn.last() is Join {
                if st.len() >= 2 {
                    let n = st.len();
                    let pre = st.subrange(0, n - 2);
                    let a = st[n - 2];
                    let b = st[n - 1];
                    let nst = pre.push(a + b);
                    assert(nst.drop_last() =~= pre);
                    assert(st.drop_last() =~= pre.push(a));
                    assert(pre.push(a).drop_last() =~= pre);
                    assert(nst.last() == a + b);
                    assert(concat_all(nst) == concat_all(pre) + (a + b));
                    assert(st.last() == b);
                    assert(pre.push(a).last() == a);
                    assert(concat_all(pre.push(a)) == concat_all(pre) + a);
                    assert(concat_all(st) == concat_all(pre.push(a)) + b);
                    assert(concat_all(nst) =~= concat_all(st));
                }
            } else if k < ops.len() {
                let nst = st.push(ops[k as int]);
                assert(nst.drop_last() =~= st);
                assert(ops.subrange(0, k + 1 as int).drop_last() =~= ops.subrange(0, k as int));
                assert(concat_all(nst) =~= concat_all(ops.subrange(0, k + 1 as int)));
            }
        }
    }
}

/// Whatever the join kinds, a FROM clause's composed schema is the columns of
/// all its operands, in source order, with nothing reordered or removed.
pub proof fn law_resolved_schema_concatenates<Q, E>(
    rpn: Seq<RelationRPNItem<Q, E>>,
    ops: Seq<Seq<ColumnView>>,
)
    ensures
        resolved_schema(rpn, ops) is Some ==> resolved_schema(rpn, ops)->Some_0 == concat_all(ops),
{
    lemma_stack_concatenates(rpn, ops);
    if let Some((st, k)) = rpn_stack(rpn, ops) {
        if st.len() == 1 && k == ops.len() {
            assert(st.drop_last() =~= Seq::<Seq<ColumnView>>::empty());
            assert(concat_all(Seq::<Seq<ColumnView>>::empty()) == Seq::<ColumnView>::empty());
            assert(concat_all(st) == concat_all(st.drop_last()) + st.last());
            assert(concat_all(st) =~= st[0]);
            assert(ops.subrange(0, k as int) =~= ops);
        }
    }
}

proof fn lemma_count_concat_all(ops: Seq<Seq<ColumnView>>, path: Seq<Seq<char>>)
    ensures
        match_count(concat_all(ops), path) == count_in_all(ops, path),
    decreases ops.len(),
{
    if ops.len() > 0 {
        lemma_count_concat_all(ops.drop_last(), path);
        law_reference_in_join(concat_all(ops.drop_last()), ops.last(), path);
    }
}

proof fn lemma_count_all_zero(ops: Seq<Seq<ColumnView>>, path: Seq<Seq<char>>)
    requires
        forall|j: int| 0 <= j < ops.len() ==> #[trigger] match_count(ops[j], path) == 0,
    ensures
        count_in_all(ops, path) == 0,
    decreases ops.len(),
{
    if ops.len() > 0 {
        assert(forall|j: int| 0 <= j < ops.len() - 1 ==> ops.drop_last()[j] == ops[j]);
        lemma_count_all_zero(ops.drop_last(), path);
    }
}

proof fn lemma_count_only_one(ops: Seq<Seq<ColumnView>>, path: Seq<Seq<char>>, i: int)
    requires
        0 <= i < ops.len(),
        forall|j: int| 0 <= j < ops.len() && j != i ==> #[trigger] match_count(ops[j], path) == 0,
    ensures
        count_in_all(ops, path) == match_count(ops[i], path),
    decreases ops.len(),
{
    assert(forall|j: int| 0 <= j < ops.len() - 1 ==> ops.drop_last()[j] == ops[j]);
    if i == ops.len() - 1 {
        lemma_count_all_zero(ops.drop_last(), path);
    } else {
        lemma_count_only_one(ops.drop_last(), path, i);
    }
}

proof fn lemma_count_at_least(ops: Seq<Seq<ColumnView>>, path: Seq<Seq<char>>, i: int)
    requires
        0 <= i < ops.len(),
    ensures
        count_in_all(ops, path) >= match_count(ops[i], path),
    decreases ops.len(),
{
    if i < ops.len() - 1 {
        assert(ops.drop_last()[i] == ops[i]);
        lemma_count_at_least(ops.drop_last(), path, i);
    }
}

proof fn lemma_count_two(ops: Seq<Seq<ColumnView>>, path: Seq<Seq<char>>, i: int, j: int)
    requires
        0 <= i < j < ops.len(),
        match_count(ops[i], path) >= 1,
        match_count(ops[j], path) >= 1,
    ensures
        count_in_all(ops, path) >= 2,
    decreases ops.len(),
{
    assert(ops.drop_last()[i] == ops[i]);
    if j == ops.len() - 1 {
        lemma_count_at_least(ops.drop_last(), path, i);
    } else {
        assert(ops.drop_last()[j] == ops[j]);
        lemma_count_two(ops.drop_last(), path, i, j);
    }
}

/// Over a whole FROM clause, a reference denotes in the composed schema the
/// columns it denotes in each operand, added up.
pub proof fn law_reference_over_operands<Q, E>(
    rpn: Seq<RelationRPNItem<Q, E>>,
    ops: Seq<Seq<ColumnView>>,
    path: Seq<Seq<char>>,
)
    requires
        resolved_schema(rpn, ops) is Some,
    ensures
        match_count(resolved_schema(rpn, ops)->Some_0, path) == count_in_all(ops, path),
{
    law_resolved_schema_concatenates(rpn, ops);
    lemma_count_concat_all(ops, path);
}

/// A reference that denotes one column of operand `i` and none of any other
/// operand denotes exactly one column of the composed schema, so it resolves.
/// With `law_other_alias_matches_none` this covers references qualified by an alias.
pub proof fn law_reference_in_one_operand<Q, E>(
    rpn: Seq<RelationRPNItem<Q, E>>,
    ops: Seq<Seq<ColumnView>>,
    path: Seq<Seq<char>>,
    i: int,
)
    requires
        resolved_schema(rpn, ops) is Some,
        0 <= i < ops.len(),
        match_count(ops[i], path) == 1,
        forall|j: int| 0 <= j < ops.len() && j != i ==> #[trigger] match_count(ops[j], path) == 0,
    ensures
        match_count(resolved_schema(rpn, ops)->Some_0, path) == 1,
{
    law_reference_over_operands(rpn, ops, path);
    lemma_count_only_one(ops, path, i);
}

/// A reference that denotes columns of two different operands denotes two or
/// more columns of the composed schema, so it is ambiguous.
pub proof fn law_reference_in_two_operands<Q, E>(
    rpn: Seq<RelationRPNItem<Q, E>>,
    ops: Seq<Seq<ColumnView>>,
    path: Seq<Seq<char>>,
    i: int,
    j: int,
)
    requires
        resolved_schema(rpn, ops) is Some,
        0 <= i < ops.len(),
        0 <= j < ops.len(),
        i != j,
        match_count(ops[i], path) >= 1,
        match_count(ops[j], path) >= 1,
    ensures
        match_count(resolved_schema(rpn, ops)->Some_0, path) >= 2,
{
    law_reference_over_operands(rpn, ops, path);
    if i < j {
        lemma_count_two(ops, path, i, j);
    } else {
        lemma_count_two(ops, path, j, i);
    }
}

} // verus!

//! The kernel side of the predicate visitor: the engine walks its own predicate
//! and calls these functions, which build kernel expressions bottom-up. Each
//! expression under construction is held in the visitor state under an id; a
//! node that combines children takes them out of the state by their ids. An id
//! of 0 names no expression and stands for an invalid node.

use crate::expressions::{BinaryOperator, Expression, Scalar};
use crate::reference_set::ReferenceSet;
use vstd::prelude::*;

verus! {

/// The expressions that are being built, each under its id.
pub struct KernelExpressionVisitorState {
    inflight_expressions: ReferenceSet<Expression>,
}

impl View for KernelExpressionVisitorState {
    type V = Map<usize, Expression>;

    closed spec fn view(&self) -> Map<usize, Expression> {
        self.inflight_expressions@
    }
}

impl KernelExpressionVisitorState {
    /// The id under which the next expression will be held.
    pub closed spec fn next_key(&self) -> usize {
        self.inflight_expressions.next_key()
    }

    /// Well-formedness of the underlying id table.
    pub closed spec fn wf(&self) -> bool {
        self.inflight_expressions.wf()
    }

    /// Whether one more expression can be stored: ids are not exhausted.
    pub open spec fn can_grow(&self) -> bool {
        self.next_key() < usize::MAX
    }

    /// Whether one more expression can be stored.
    pub fn has_room(&self) -> (b: bool)
        ensures
            b == self.can_grow(),
    {
        self.inflight_expressions.has_room()
    }

    /// A state that holds no expression.
    pub fn new() -> (s: Self)
        ensures
            s.wf(),
            s@ == Map::<usize, Expression>::empty(),
            s.next_key() == 1,
    {
        KernelExpressionVisitorState { inflight_expressions: ReferenceSet::new() }
    }
}

impl Default for KernelExpressionVisitorState {
    fn default() -> (s: Self)
        ensures
            s.wf(),
            s@ == Map::<usize, Expression>::empty(),
            s.next_key() == 1,
    {
        KernelExpressionVisitorState { inflight_expressions: ReferenceSet::new() }
    }
}

/// Stores an expression in the state and returns its id.
pub fn wrap_expression(state: &mut KernelExpressionVisitorState, expr: Expression) -> (id: usize)
    requires
        old(state).wf(),
        old(state).can_grow(),
    ensures
        final(state).wf(),
        id == old(state).next_key(),
        id != 0,
        !old(state)@.contains_key(id),
        final(state)@ == old(state)@.insert(id, expr),
        final(state).next_key() == id + 1,
{
    state.inflight_expressions.insert(expr)
}

/// Takes the expression with the given id out of the state, if there is one.
pub fn unwrap_kernel_expression(state: &mut KernelExpressionVisitorState, exprid: usize) -> (r:
    Option<Box<Expression>>)
    requires
        old(state).wf(),
    ensures
        final(state).wf(),
        final(state)@ == old(state)@.remove(exprid),
        final(state).next_key() == old(state).next_key(),
        r == (if old(state)@.contains_key(exprid) {
            Some(Box::new(old(state)@[exprid]))
        } else {
            None
        }),
{
    match state.inflight_expressions.take(exprid) {
        Some(e) => Some(Box::new(e)),
        None => None,
    }
}

/// Whether combining the expressions with ids `a` and `b` builds a node: both are
/// held, and `b` is still held once `a` is taken out.
pub open spec fn binary_builds_node(m: Map<usize, Expression>, a: usize, b: usize) -> bool {
    m.contains_key(a) && m.remove(a).contains_key(b)
}

/// What `visit_expression_binary` leaves in the state and returns: both children
/// are taken out (the second after the first); if both were there, the new node is
/// stored under the next id and that id is returned, else 0 is returned.
pub open spec fn binary_outcome(
    m: Map<usize, Expression>,
    next: usize,
    op: BinaryOperator,
    a: usize,
    b: usize,
) -> (Map<usize, Expression>, usize) {
    let m1 = m.remove(a);
    let m2 = m1.remove(b);
    if binary_builds_node(m, a, b) {
        (
            m2.insert(
                next,
                Expression::BinaryOperation {
                    op,
                    left: Box::new(m[a]),
                    right: Box::new(m1[b]),
                },
            ),
            next,
        )
    } else {
        (m2, 0)
    }
}

/// Whether combining the expressions with ids `a` and `b` builds a node (and so
/// needs room for one more id).
pub fn builds_binary_node(state: &KernelExpressionVisitorState, a: usize, b: usize) -> (r: bool)
    ensures
        r == binary_builds_node(state@, a, b),
{
    a != b && state.inflight_expressions.contains(a) && state.inflight_expressions.contains(b)
}

/// Combines the expressions with ids `a` and `b` under `op`.
pub fn visit_expression_binary(
    state: &mut KernelExpressionVisitorState,
    op: BinaryOperator,
    a: usize,
    b: usize,
) -> (id: usize)
    requires
        old(state).wf(),
        binary_builds_node(old(state)@, a, b) ==> old(state).can_grow(),
    ensures
        final(state).wf(),
        (final(state)@, id) == binary_outcome(old(state)@, old(state).next_key(), op, a, b),
        final(state).next_key() == if id == 0 {
            old(state).next_key()
        } else {
            (old(state).next_key() + 1) as usize
        },
{
    let left = unwrap_kernel_expression(state, a);
    let right = unwrap_kernel_expression(state, b);
    match (left, right) {
        (Some(left), Some(right)) => wrap_expression(
            state,
            Expression::BinaryOperation { op, left, right },
        ),
        _ => 0,
    }
}


/// Combines the expressions with ids `a` and `b` as `a < b`.
pub fn visit_expression_lt(state: &mut KernelExpressionVisitorState, a: usize, b: usize) -> (id:
    usize)
    requires
        old(state).wf(),
        binary_builds_node(old(state)@, a, b) ==> old(state).can_grow(),
    ensures
        final(state).wf(),
        (final(state)@, id) == binary_outcome(
            old(state)@,
            old(state).next_key(),
            BinaryOperator::LessThan,
            a,
            b,
        ),
        final(state).next_key() == if id == 0 {
            old(state).next_key()
        } else {
            (old(state).next_key() + 1) as usize
        },
{
    visit_expression_binary(state, BinaryOperator::LessThan, a, b)
}

/// Combines the expressions with ids `a` and `b` as `a <= b`.
pub fn visit_expression_le(state: &mut KernelExpressionVisitorState, a: usize, b: usize) -> (id:
    usize)
    requires
        old(state).wf(),
        binary_builds_node(old(state)@, a, b) ==> old(state).can_grow(),
    ensures
        final(state).wf(),
        (final(state)@, id) == binary_outcome(
            old(state)@,
            old(state).next_key(),
            BinaryOperator::LessThanOrEqual,
            a,
            b,
        ),
        final(state).next_key() == if id == 0 {
            old(state).next_key()
        } else {
            (old(state).next_key() + 1) as usize
        },
{
    visit_expression_binary(state, BinaryOperator::LessThanOrEqual, a, b)
}

/// Combines the expressions with ids `a` and `b` as `a > b`.
pub fn visit_expression_gt(state: &mut KernelExpressionVisitorState, a: usize, b: usize) -> (id:
    usize)
    requires
        old(state).wf(),
        binary_builds_node(old(state)@, a, b) ==> old(state).can_grow(),
    ensures
        final(state).wf(),
        (final(state)@, id) == binary_outcome(
            old(state)@,
            old(state).next_key(),
            BinaryOperator::GreaterThan,
            a,
            b,
        ),
        final(state).next_key() == if id == 0 {
            old(state).next_key()
        } else {
            (old(state).next_key() + 1) as usize
        },
{
    visit_expression_binary(state, BinaryOperator::GreaterThan, a, b)
}

/// Combines the expressions with ids `a` and `b` as `a >= b`.
pub fn visit_expression_ge(state: &mut KernelExpressionVisitorState, a: usize, b: usize) -> (id:
    usize)
    requires
        old(state).wf(),
        binary_builds_node(old(state)@, a, b) ==> old(state).can_grow(),
    ensures
        final(state).wf(),
        (final(state)@, id) == binary_outcome(
            old(state)@,
            old(state).next_key(),
            BinaryOperator::GreaterThanOrEqual,
            a,
            b,
        ),
        final(state).next_key() == if id == 0 {
            old(state).next_key()
        } else {
            (old(state).next_key() + 1) as usize
        },
{
    visit_expression_binary(state, BinaryOperator::GreaterThanOrEqual, a, b)
}

/// Combines the expressions with ids `a` and `b` as `a == b`.
pub fn visit_expression_eq(state: &mut KernelExpressionVisitorState, a: usize, b: usize) -> (id:
    usize)
    requires
        old(state).wf(),
        binary_builds_node(old(state)@, a, b) ==> old(state).can_grow(),
    ensures
        final(state).wf(),
        (final(state)@, id) == binary_outcome(
            old(state)@,
            old(state).next_key(),
            BinaryOperator::Equal,
            a,
            b,
        ),
        final(state).next_key() == if id == 0 {
            old(state).next_key()
        } else {
            (old(state).next_key() + 1) as usize
        },
{
    visit_expression_binary(state, BinaryOperator::Equal, a, b)
}

/// Stores a reference to the column with the given name and returns its id.
pub fn visit_expression_column(state: &mut KernelExpressionVisitorState, name: String) -> (id:
    usize)
    requires
        old(state).wf(),
        old(state).can_grow(),
    ensures
        final(state).wf(),
        id == old(state).next_key(),
        final(state)@ == old(state)@.insert(id, Expression::Column(name)),
        final(state).next_key() == id + 1,
{
    wrap_expression(state, Expression::Column(name))
}

/// Stores a string literal and returns its id.
pub fn visit_expression_literal_string(state: &mut KernelExpressionVisitorState, value: String) -> (id:
    usize)
    requires
        old(state).wf(),
        old(state).can_grow(),
    ensures
        final(state).wf(),
        id == old(state).next_key(),
        final(state)@ == old(state)@.insert(id, Expression::Literal(Scalar::String(value))),
        final(state).next_key() == id + 1,
{
    wrap_expression(state, Expression::Literal(Scalar::String(value)))
}

/// Stores a 64-bit integer literal and returns its id.
pub fn visit_expression_literal_long(state: &mut KernelExpressionVisitorState, value: i64) -> (id:
    usize)
    requires
        old(state).wf(),
        old(state).can_grow(),
    ensures
        final(state).wf(),
        id == old(state).next_key(),
        final(state)@ == old(state)@.insert(id, Expression::Literal(Scalar::Long(value))),
        final(state).next_key() == id + 1,
{
    wrap_expression(state, Expression::Literal(Scalar::Long(value)))
}

/// The left-nested conjunction of a non-empty list of expressions:
/// `e0` alone, else `((e0 AND e1) AND e2) ...`.
pub open spec fn conjunction(es: Seq<Expression>) -> Expression
    recommends
        es.len() >= 1,
    decreases es.len(),
{
    if es.len() <= 1 {
        es[0]
    } else {
        Expression::BinaryOperation {
            op: BinaryOperator::And,
            left: Box::new(conjunction(es.drop_last())),
            right: Box::new(es.last()),
        }
    }
}

/// Takes each id of `ids` out of the map, in order, and collects the expressions
/// that were there; ids that name nothing (any longer) are skipped.
pub open spec fn take_children(m: Map<usize, Expression>, ids: Seq<usize>) -> (
    Map<usize, Expression>,
    Seq<Expression>,
)
    decreases ids.len(),
{
    if ids.len() == 0 {
        (m, Seq::empty())
    } else {
        let (m1, found) = take_children(m, ids.drop_last());
        let k = ids.last();
        if m1.contains_key(k) {
            (m1.remove(k), found.push(m1[k]))
        } else {
            (m1, found)
        }
    }
}

/// What `visit_expression_and` leaves in the state and returns: every child id is
/// taken out; with no valid child 0 is returned, else the conjunction of the valid
/// children, in order, is stored under the next id and that id is returned.
pub open spec fn and_outcome(m: Map<usize, Expression>, next: usize, ids: Seq<usize>) -> (
    Map<usize, Expression>,
    usize,
) {
    let (m1, found) = take_children(m, ids);
    if found.len() == 0 {
        (m1, 0)
    } else {
        (m1.insert(next, conjunction(found)), next)
    }
}

/// Whether a conjunction of the given children builds a node (and so needs room for
/// one more id): at least one child is held.
pub fn builds_and_node(state: &KernelExpressionVisitorState, children: &Vec<usize>) -> (r: bool)
    ensures
        r == (take_children(state@, children@).1.len() > 0),
{
    let ghost m0 = state@;
    let mut any = false;
    let mut i: usize = 0;
    while i < children.len()
        invariant
            0 <= i <= children.len(),
            m0 == state@,
            any == (take_children(m0, children@.take(i as int)).1.len() > 0),
            !any ==> take_children(m0, children@.take(i as int)).0 == m0,
        decreases children.len() - i,
    {
        proof {
            assert(children@.take(i + 1).drop_last() =~= children@.take(i as int));
            assert(children@.take(i + 1).last() == children@[i as int]);
        }
        if !any && state.inflight_expressions.contains(children[i]) {
            any = true;
        }
        i = i + 1;
    }
    proof {
        assert(children@.take(children@.len() as int) =~= children@);
    }
    any
}

/// Combines the expressions with the given ids, in order, into one conjunction.
/// Ids that name no expression are skipped; with a single valid child, that
/// expression itself is stored again under a new id.
pub fn visit_expression_and(state: &mut KernelExpressionVisitorState, children: &Vec<usize>) -> (id:
    usize)
    requires
        old(state).wf(),
        take_children(old(state)@, children@).1.len() > 0 ==> old(state).can_grow(),
    ensures
        final(state).wf(),
        (final(state)@, id) == and_outcome(old(state)@, old(state).next_key(), children@),
        final(state).next_key() == if id == 0 {
            old(state).next_key()
        } else {
            (old(state).next_key() + 1) as usize
        },
{
    let ghost m0 = state@;
    let ghost next = state.next_key();
    let mut acc: Option<Expression> = None;
    let mut i: usize = 0;
    while i < children.len()
        invariant
            0 <= i <= children.len(),
            state.wf(),
            state.next_key() == next,
            take_children(m0, children@).1.len() > 0 ==> next < usize::MAX,
            state@ == take_children(m0, children@.take(i as int)).0,
            ({
                let found = take_children(m0, children@.take(i as int)).1;
                if found.len() == 0 {
                    acc is None
                } else {
                    acc == Some(conjunction(found))
                }
            }),
        decreases children.len() - i,
    {
        proof {
            assert(children@.take(i + 1).drop_last() =~= children@.take(i as int));
            assert(children@.take(i + 1).last() == children@[i as int]);
        }
        let ghost found = take_children(m0, children@.take(i as int)).1;
        let child = unwrap_kernel_expression(state, children[i]);
        match child {
            Some(e) => {
                proof {
                    let grown = found.push(*e);
                    assert(grown.drop_last() =~= found);
                    assert(grown.last() == *e);
                }
                acc = match acc {
                    None => Some(*e),
                    Some(left) => Some(
                        Expression::BinaryOperation {
                            op: BinaryOperator::And,
                            left: Box::new(left),
                            right: e,
                        },
                    ),
                };
            },
            None => {},
        }
        i = i + 1;
    }
    proof {
        assert(children@.take(children@.len() as int) =~= children@);
    }
    match acc {
        None => 0,
        Some(e) => wrap_expression(state, e),
    }
}

/// Whether every id in `m` is positive and below `next`, the id to be handed out
/// next, as holds of every well-formed visitor state.
pub open spec fn ids_below(m: Map<usize, Expression>, next: usize) -> bool {
    &&& next >= 1
    &&& forall|k: usize| #[trigger] m.contains_key(k) ==> 1 <= k < next
}

/// A well-formed visitor state holds expressions only under ids below its next id.
pub proof fn lemma_state_ids_below(state: KernelExpressionVisitorState)
    requires
        state.wf(),
    ensures
        ids_below(state@, state.next_key()),
{
    crate::reference_set::lemma_ids_are_below_next_key(state.inflight_expressions);
}

/// An invalid child makes an invalid node: a binary node gets an id (never 0)
/// exactly when both children are held, the second still held once the first is
/// taken. Either way the children that were held are consumed, and only the new
/// node, if any, is added.
pub proof fn lemma_binary_node_validity(
    m: Map<usize, Expression>,
    next: usize,
    op: BinaryOperator,
    a: usize,
    b: usize,
)
    requires
        ids_below(m, next),
    ensures
        ({
            let (m2, id) = binary_outcome(m, next, op, a, b);
            &&& (id != 0) <==> (m.contains_key(a) && m.remove(a).contains_key(b))
            &&& m.contains_key(a) ==> !m2.contains_key(a)
            &&& m.contains_key(b) ==> !m2.contains_key(b)
            &&& id == 0 ==> m2 == m.remove(a).remove(b)
            &&& id != 0 ==> m2 == m.remove(a).remove(b).insert(id, m2[id])
        }),
{
}

/// A built node takes its operands in argument order, whatever they hold: the node
/// stored under the next id is `op` applied to the expression under `a` (left) and
/// the one under `b` (right), and nothing else changes but the two children leaving.
pub proof fn lemma_binary_node_operands(
    m: Map<usize, Expression>,
    next: usize,
    op: BinaryOperator,
    a: usize,
    b: usize,
)
    requires
        ids_below(m, next),
        m.contains_key(a),
        m.contains_key(b),
        a != b,
    ensures
        ({
            let (m2, id) = binary_outcome(m, next, op, a, b);
            &&& id == next
            &&& m2.contains_key(id)
            &&& m2[id] == Expression::BinaryOperation {
                op,
                left: Box::new(m[a]),
                right: Box::new(m[b]),
            }
            &&& m2.remove(id) == m.remove(a).remove(b)
        }),
{
    let m1 = m.remove(a);
    assert(m1.contains_key(b));
    assert(m1[b] == m[b]);
    let (m2, id) = binary_outcome(m, next, op, a, b);
    assert(!m1.remove(b).contains_key(next));
    assert(m2.remove(id) =~= m1.remove(b));
}

/// Children are collected one by one, in order: a further child id that is still
/// held adds its expression to the end of what was collected and leaves the state;
/// one that is not held changes nothing.
pub proof fn lemma_take_children_push(m: Map<usize, Expression>, ids: Seq<usize>, k: usize)
    ensures
        ({
            let (m1, found) = take_children(m, ids);
            let (m2, found2) = take_children(m, ids.push(k));
            &&& m1.contains_key(k) ==> m2 == m1.remove(k) && found2 == found.push(m1[k])
            &&& !m1.contains_key(k) ==> m2 == m1 && found2 == found
        }),
{
    assert(ids.push(k).drop_last() =~= ids);
}

/// Every valid child ends up in the conjunction: when the children are distinct ids
/// that are all held, what is collected is exactly their expressions, in order.
pub proof fn lemma_take_children_distinct(m: Map<usize, Expression>, ids: Seq<usize>)
    requires
        forall|i: int| 0 <= i < ids.len() ==> m.contains_key(#[trigger] ids[i]),
        forall|i: int, j: int| 0 <= i < j < ids.len() ==> ids[i] != ids[j],
    ensures
        take_children(m, ids).1 == ids.map_values((|k: usize| m[k])),
        forall|k: usize| #[trigger] take_children(m, ids).0.contains_key(k) <==> (m.contains_key(k)
            && !ids.contains(k)),
        forall|k: usize| #[trigger] take_children(m, ids).0.contains_key(k) ==> take_children(
            m,
            ids,
        ).0[k] == m[k],
    decreases ids.len(),
{
    if ids.len() == 0 {
        assert(take_children(m, ids).1 =~= ids.map_values(|k: usize| m[k]));
    } else {
        let init = ids.drop_last();
        let k = ids.last();
        lemma_take_children_distinct(m, init);
        lemma_take_children_push(m, init, k);
        assert(init.push(k) =~= ids);
        assert(!init.contains(k)) by {
            if init.contains(k) {
                let i = choose|i: int| 0 <= i < init.len() && init[i] == k;
                assert(ids[i] == ids[ids.len() - 1]);
            }
        }
        assert(take_children(m, init).0.contains_key(k));
        assert(take_children(m, init).0[k] == m[k]);
        assert(ids.map_values(|k: usize| m[k]) =~= init.map_values(|k: usize| m[k]).push(m[k]));
        assert forall|j: usize| #[trigger] take_children(m, ids).0.contains_key(j) <==> (
        m.contains_key(j) && !ids.contains(j)) by {
            if ids.contains(j) && !init.contains(j) {
                let i = choose|i: int| 0 <= i < ids.len() && ids[i] == j;
                if i < ids.len() - 1 {
                    assert(init[i] == j);
                }
            }
            if init.contains(j) {
                let i = choose|i: int| 0 <= i < init.len() && init[i] == j;
                assert(ids[i] == j);
            }
        }
    }
}

/// The conjunction nests to the left with every expression as a conjunct: a single
/// expression is itself, and one more expression becomes the right operand of an
/// `And` over the conjunction of those before it.
pub proof fn lemma_conjunction_push(es: Seq<Expression>, e: Expression)
    ensures
        conjunction(seq![e]) == e,
        es.len() >= 1 ==> conjunction(es.push(e)) == (Expression::BinaryOperation {
            op: BinaryOperator::And,
            left: Box::new(conjunction(es)),
            right: Box::new(e),
        }),
{
    assert(es.push(e).drop_last() =~= es);
}

/// Every valid child of a conjunction is consumed, and nothing that was not a child
/// is touched: what is left is the state without the children, plus the new node
/// when at least one child was valid.
pub proof fn lemma_and_consumes_children(m: Map<usize, Expression>, next: usize, ids: Seq<usize>)
    requires
        ids_below(m, next),
    ensures
        ({
            let (m1, found) = take_children(m, ids);
            let (m2, id) = and_outcome(m, next, ids);
            &&& forall|k: usize| #[trigger] m1.contains_key(k) <==> (m.contains_key(k) && !ids.contains(k))
            &&& forall|k: usize| #[trigger] m1.contains_key(k) ==> m1[k] == m[k]
            &&& (id == 0) <==> (found.len() == 0)
            &&& id == 0 ==> m2 == m1
            &&& id != 0 ==> m2 == m1.insert(id, conjunction(found))
        }),
    decreases ids.len(),
{
    if ids.len() > 0 {
        lemma_and_consumes_children(m, next, ids.drop_last());
        let (m0, _) = take_children(m, ids.drop_last());
        assert forall|k: usize| #[trigger] ids.contains(k) <==> (ids.drop_last().contains(k) || k
            == ids.last()) by {
            if ids.contains(k) {
                let i = choose|i: int| 0 <= i < ids.len() && ids[i] == k;
                if i < ids.len() - 1 {
                    assert(ids.drop_last()[i] == k);
                }
            }
            if ids.drop_last().contains(k) {
                let i = choose|i: int| 0 <= i < ids.drop_last().len() && ids.drop_last()[i] == k;
                assert(ids[i] == k);
            }
            if k == ids.last() {
                assert(ids[ids.len() - 1] == k);
            }
        }
    }
}

/// An expression stored by `wrap_expression` is what taking its id gives back, and
/// taking it leaves the state as it was before; the id is then consumed, so taking it
/// again gives nothing.
pub proof fn lemma_unwrap_after_wrap(state: KernelExpressionVisitorState, e: Expression)
    requires
        state.wf(),
    ensures
        ({
            let id = state.next_key();
            let stored = state@.insert(id, e);
            &&& id != 0
            &&& stored.contains_key(id)
            &&& stored[id] == e
            &&& stored.remove(id) == state@
            &&& !stored.remove(id).contains_key(id)
        }),
{
    lemma_state_ids_below(state);
    let id = state.next_key();
    assert(!state@.contains_key(id));
    assert(state@.insert(id, e).remove(id) =~= state@);
}

} // verus!

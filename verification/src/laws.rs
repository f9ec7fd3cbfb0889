//! What holds of every list, stated over the values it holds.
//!
//! The view of a `List` is the sequence of its values. `apply` and `output`
//! say what one operation at an end does to that sequence and what it gives
//! back, `advance` and `yielded` say the same of one advance of a walk, and
//! the contracts of the operations and of the walks are stated with them.
//! The lemmas prove what follows for whole runs of operations.

use vstd::prelude::*;

verus! {

/// One operation at an end of a list.
pub enum Op<T> {
    PushBack(T),
    PushFront(T),
    PopBack,
    PopFront,
}

/// The values of a list that held `s`, after `op`.
pub open spec fn apply<T>(s: Seq<T>, op: Op<T>) -> Seq<T> {
    match op {
        Op::PushBack(v) => s.push(v),
        Op::PushFront(v) => seq![v] + s,
        Op::PopBack => if s.len() == 0 {
            s
        } else {
            s.drop_last()
        },
        Op::PopFront => if s.len() == 0 {
            s
        } else {
            s.drop_first()
        },
    }
}

/// What `op` gives back on a list that holds `s`: a pop gives the value it
/// removed, or nothing from an empty list; a push gives nothing.
pub open spec fn output<T>(s: Seq<T>, op: Op<T>) -> Option<T> {
    match op {
        Op::PushBack(_) => None,
        Op::PushFront(_) => None,
        Op::PopBack => if s.len() == 0 {
            None
        } else {
            Some(s.last())
        },
        Op::PopFront => if s.len() == 0 {
            None
        } else {
            Some(s.first())
        },
    }
}

/// `op` adds a value.
pub open spec fn is_push<T>(op: Op<T>) -> bool {
    op is PushBack || op is PushFront
}

/// The values of a list that held `s`, after the operations `ops` in their
/// order.
pub open spec fn run<T>(s: Seq<T>, ops: Seq<Op<T>>) -> Seq<T>
    decreases ops.len(),
{
    if ops.len() == 0 {
        s
    } else {
        apply(run(s, ops.drop_last()), ops.last())
    }
}

/// What the operation at position `k` of `ops` gives back, when `ops` runs on
/// a list that held `s`.
pub open spec fn output_at<T>(s: Seq<T>, ops: Seq<Op<T>>, k: int) -> Option<T> {
    output(run(s, ops.take(k)), ops[k])
}

/// How many of `ops` are pushes.
pub open spec fn pushes<T>(ops: Seq<Op<T>>) -> nat
    decreases ops.len(),
{
    if ops.len() == 0 {
        0
    } else if is_push(ops.last()) {
        pushes(ops.drop_last()) + 1
    } else {
        pushes(ops.drop_last())
    }
}

/// How many of `ops` are pops that remove a value, when `ops` runs on a list
/// that held `s`.
pub open spec fn successful_pops<T>(s: Seq<T>, ops: Seq<Op<T>>) -> nat
    decreases ops.len(),
{
    if ops.len() == 0 {
        0
    } else if output(run(s, ops.drop_last()), ops.last()) is Some {
        successful_pops(s, ops.drop_last()) + 1
    } else {
        successful_pops(s, ops.drop_last())
    }
}

/// One `PushBack` for each value of `vs`, in their order.
pub open spec fn push_backs<T>(vs: Seq<T>) -> Seq<Op<T>> {
    Seq::new(vs.len(), |i: int| Op::PushBack(vs[i]))
}

/// One `PushFront` for each value of `vs`, in their order.
pub open spec fn push_fronts<T>(vs: Seq<T>) -> Seq<Op<T>> {
    Seq::new(vs.len(), |i: int| Op::PushFront(vs[i]))
}

/// `n` times `PopFront`.
pub open spec fn pop_fronts<T>(n: nat) -> Seq<Op<T>> {
    Seq::new(n, |i: int| Op::PopFront)
}

/// The position of a walk over `n` values after one more advance from `pos`.
pub open spec fn advance(n: nat, pos: nat) -> nat {
    if pos < n {
        pos + 1
    } else {
        pos
    }
}

/// What an advance gives when the walk over `s` stands at `pos`.
pub open spec fn yielded<T>(s: Seq<T>, pos: nat) -> Option<T> {
    if pos < s.len() {
        Some(s[pos as int])
    } else {
        None
    }
}

/// The position of a new walk over `n` values after `k` advances.
pub open spec fn position_after(n: nat, k: nat) -> nat
    decreases k,
{
    if k == 0 {
        0
    } else {
        advance(n, position_after(n, (k - 1) as nat))
    }
}

/// Running `a` and then `b` is running `a + b`.
pub proof fn lemma_run_concat<T>(s: Seq<T>, a: Seq<Op<T>>, b: Seq<Op<T>>)
    ensures
        run(s, a + b) == run(run(s, a), b),
    decreases b.len(),
{
    if b.len() > 0 {
        assert((a + b).drop_last() =~= a + b.drop_last());
        lemma_run_concat(s, a, b.drop_last());
    }
}

/// After any operations the length is the length before, plus the number of
/// pushes, minus the number of pops that removed a value. The pops that
/// remove a value are never more than there were values to remove.
pub proof fn lemma_len_counts_operations<T>(s: Seq<T>, ops: Seq<Op<T>>)
    ensures
        successful_pops(s, ops) <= s.len() + pushes(ops),
        run(s, ops).len() == s.len() + pushes(ops) - successful_pops(s, ops),
    decreases ops.len(),
{
    if ops.len() > 0 {
        lemma_len_counts_operations(s, ops.drop_last());
    }
}

/// Pushing `vs` at the back, one by one, puts `vs` behind what was there.
pub proof fn lemma_push_backs<T>(s: Seq<T>, vs: Seq<T>)
    ensures
        run(s, push_backs(vs)) == s + vs,
    decreases vs.len(),
{
    if vs.len() > 0 {
        assert(push_backs(vs).drop_last() =~= push_backs(vs.drop_last()));
        lemma_push_backs(s, vs.drop_last());
    }
}

/// Pushing `vs` at the front, one by one, puts `vs` in reverse before what
/// was there: the value pushed last is at the front.
pub proof fn lemma_push_fronts<T>(s: Seq<T>, vs: Seq<T>)
    ensures
        run(s, push_fronts(vs)) == vs.reverse() + s,
    decreases vs.len(),
{
    if vs.len() > 0 {
        assert(push_fronts(vs).drop_last() =~= push_fronts(vs.drop_last()));
        lemma_push_fronts(s, vs.drop_last());
    }
}

/// Popping at the front `n` times removes the first `n` values.
pub proof fn lemma_pop_fronts<T>(s: Seq<T>, n: nat)
    requires
        n <= s.len(),
    ensures
        run(s, pop_fronts::<T>(n)) == s.skip(n as int),
    decreases n,
{
    if n > 0 {
        let m = (n - 1) as nat;
        assert(pop_fronts::<T>(n).drop_last() =~= pop_fronts::<T>(m));
        lemma_pop_fronts(s, m);
    }
}

/// First in, first out: after the values `vs` were pushed at the back of an
/// empty list, the pops at the front give them back in the order in which
/// they were pushed, and leave the list empty.
pub proof fn lemma_fifo<T>(vs: Seq<T>)
    ensures
        run(Seq::<T>::empty(), push_backs(vs)) == vs,
        forall|k: int|
            0 <= k < vs.len() ==> #[trigger] output_at(
                Seq::<T>::empty(),
                push_backs(vs) + pop_fronts::<T>(vs.len()),
                vs.len() + k,
            ) == Some(vs[k]),
        run(Seq::<T>::empty(), push_backs(vs) + pop_fronts::<T>(vs.len())) == Seq::<T>::empty(),
{
    let empty = Seq::<T>::empty();
    let n = vs.len();
    let ops = push_backs(vs) + pop_fronts::<T>(n);
    lemma_push_backs(empty, vs);
    assert forall|k: int| 0 <= k < n implies #[trigger] output_at(empty, ops, n + k) == Some(
        vs[k],
    ) by {
        assert(ops.take(n + k) =~= push_backs(vs) + pop_fronts::<T>(k as nat));
        lemma_run_concat(empty, push_backs(vs), pop_fronts::<T>(k as nat));
        lemma_pop_fronts(vs, k as nat);
    }
    lemma_run_concat(empty, push_backs(vs), pop_fronts::<T>(n));
    lemma_pop_fronts(vs, n);
}

/// Last in, first at the front: after the values `vs` were pushed at the
/// front of an empty list, the list holds them in reverse, so a walk from the
/// front gives the value pushed last first.
pub proof fn lemma_push_front_reverses<T>(vs: Seq<T>)
    ensures
        run(Seq::<T>::empty(), push_fronts(vs)) == vs.reverse(),
        forall|k: nat|
            k < vs.len() ==> #[trigger] yielded(
                run(Seq::<T>::empty(), push_fronts(vs)),
                position_after(vs.len(), k),
            ) == Some(vs[vs.len() - 1 - k]),
{
    let empty = Seq::<T>::empty();
    lemma_push_fronts(empty, vs);
    assert forall|k: nat| k < vs.len() implies #[trigger] yielded(
        run(empty, push_fronts(vs)),
        position_after(vs.len(), k),
    ) == Some(vs[vs.len() - 1 - k]) by {
        lemma_position_after(vs.len(), k);
    }
}

/// A push at the back followed at once by a pop at the back gives the pushed
/// value and leaves the list as it was before the two: the same values, so
/// the same length and the same value at the back.
pub proof fn lemma_push_back_pop_back<T>(s: Seq<T>, v: T)
    ensures
        s.push(v).last() == v,
        s.push(v).drop_last() == s,
        output(apply(s, Op::PushBack(v)), Op::PopBack) == Some(v),
        apply(apply(s, Op::PushBack(v)), Op::PopBack) == s,
        run(s, seq![Op::PushBack(v), Op::PopBack]) == s,
{
    let ops = seq![Op::PushBack(v), Op::PopBack];
    assert(run(s, ops.drop_last().drop_last()) == s);
    assert(run(s, ops.drop_last()) == s.push(v));
}

/// A new walk over `n` values stands at `k` after `k` advances while `k` is
/// at most `n`, and at `n` ever after.
pub proof fn lemma_position_after(n: nat, k: nat)
    ensures
        position_after(n, k) == if k <= n {
            k
        } else {
            n
        },
    decreases k,
{
    if k > 0 {
        lemma_position_after(n, (k - 1) as nat);
    }
}

/// A walk is complete: over a list of `n` values its first `n` advances give
/// the values from front to back, each once, and every advance after them
/// gives nothing and leaves the walk where it stands.
pub proof fn lemma_iteration_is_complete<T>(s: Seq<T>, k: nat)
    ensures
        k < s.len() ==> yielded(s, position_after(s.len(), k)) == Some(s[k as int]),
        k >= s.len() ==> yielded(s, position_after(s.len(), k)) is None,
        k >= s.len() ==> position_after(s.len(), k + 1) == position_after(s.len(), k),
{
    lemma_position_after(s.len(), k);
    lemma_position_after(s.len(), k + 1);
}

/// The value at an index is the value that a new walk gives at its advance
/// of that number, counted from 0; at the length and beyond there is neither.
pub proof fn lemma_get_matches_iteration<T>(s: Seq<T>, i: nat)
    ensures
        yielded(s, i) == yielded(s, position_after(s.len(), i)),
        i >= s.len() ==> yielded(s, i) is None,
{
    lemma_position_after(s.len(), i);
}

} // verus!

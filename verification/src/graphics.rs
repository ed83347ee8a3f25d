//! Saving and restoring the state of the interpreter.

use vstd::prelude::*;
use crate::error::RenderError;

verus! {

/// What an operator does to the current state and the stack of saved ones:
/// `Save` and `Restore`, and any other operator, which leaves the stack
/// alone and makes some state the current one.
pub enum StackOp<S> {
    Save,
    Restore,
    Change(S),
}

/// The current state and the saved ones, the last saved at the end.
pub type Frames<S> = (S, Seq<S>);

/// The effect of one operator; `None` where nothing is left to restore.
pub open spec fn apply<S>(op: StackOp<S>, frames: Frames<S>) -> Option<Frames<S>> {
    match op {
        StackOp::Save => Some((frames.0, frames.1.push(frames.0))),
        StackOp::Restore => if frames.1.len() > 0 {
            Some((frames.1.last(), frames.1.drop_last()))
        } else {
            None
        },
        StackOp::Change(state) => Some((state, frames.1)),
    }
}

/// The effect of a sequence of operators.
pub open spec fn run<S>(ops: Seq<StackOp<S>>, frames: Frames<S>) -> Option<Frames<S>>
    decreases ops.len(),
{
    if ops.len() == 0 {
        Some(frames)
    } else {
        match run(ops.drop_last(), frames) {
            Some(before) => apply(ops.last(), before),
            None => None,
        }
    }
}

/// How many more states the first `n` operators save than they restore.
pub open spec fn net<S>(ops: Seq<StackOp<S>>, n: int) -> int
    decreases n,
{
    if n <= 0 {
        0
    } else {
        net(ops, n - 1) + match ops[n - 1] {
            StackOp::Save => 1int,
            StackOp::Restore => -1int,
            StackOp::Change(_) => 0int,
        }
    }
}

/// Whether every `Restore` of `ops` has a `Save` of `ops` before it and
/// every `Save` its `Restore`.
pub open spec fn balanced<S>(ops: Seq<StackOp<S>>) -> bool {
    &&& forall|n: int| 0 <= n <= ops.len() ==> #[trigger] net(ops, n) >= 0
    &&& net(ops, ops.len() as int) == 0
}

proof fn lemma_run_prefix<S>(ops: Seq<StackOp<S>>, frames: Frames<S>, n: int)
    requires
        0 <= n <= ops.len(),
        forall|m: int| 0 <= m <= n ==> #[trigger] net(ops, m) >= 0,
    ensures
        run(ops.take(n), frames) is Some,
        (run(ops.take(n), frames)->0).1.len() == frames.1.len() + net(ops, n),
        (run(ops.take(n), frames)->0).1.take(frames.1.len() as int) == frames.1,
    decreases n,
{
    if n == 0 {
        assert(ops.take(0) =~= Seq::empty());
        assert(frames.1.take(frames.1.len() as int) =~= frames.1);
    } else {
        lemma_run_prefix(ops, frames, n - 1);
        assert(ops.take(n).drop_last() =~= ops.take(n - 1));
        assert(ops.take(n).last() == ops[n - 1]);
        assert(net(ops, n) >= 0);
        assert(net(ops, n - 1) >= 0);
        let before = run(ops.take(n - 1), frames)->0;
        let after = apply(ops[n - 1], before)->0;
        assert(after.1.take(frames.1.len() as int) =~= before.1.take(frames.1.len() as int));
    }
}

proof fn lemma_run_concat<S>(a: Seq<StackOp<S>>, b: Seq<StackOp<S>>, frames: Frames<S>)
    ensures
        run(a + b, frames) == match run(a, frames) {
            Some(middle) => run(b, middle),
            None => None,
        },
    decreases b.len(),
{
    if b.len() == 0 {
        assert(a + b =~= a);
    } else {
        assert((a + b).drop_last() =~= a + b.drop_last());
        assert((a + b).last() == b.last());
        lemma_run_concat(a, b.drop_last(), frames);
    }
}

proof fn lemma_run_single<S>(op: StackOp<S>, frames: Frames<S>)
    ensures
        run(seq![op], frames) == apply(op, frames),
{
    let one = seq![op];
    assert(one.drop_last() =~= Seq::<StackOp<S>>::empty());
    assert(run(one.drop_last(), frames) == Some(frames));
    assert(one.last() == op);
}

/// A balanced sequence of operators leaves the saved states as they were.
pub proof fn lemma_balanced_keeps_stack<S>(ops: Seq<StackOp<S>>, current: S, saved: Seq<S>)
    requires
        balanced(ops),
    ensures
        run(ops, (current, saved)) is Some,
        (run(ops, (current, saved))->0).1 == saved,
{
    lemma_run_prefix(ops, (current, saved), ops.len() as int);
    assert(ops.take(ops.len() as int) =~= ops);
    let after = run(ops, (current, saved))->0;
    assert(after.1.take(saved.len() as int) =~= after.1);
}

/// After `Save`, a balanced sequence of operators and `Restore`, the
/// current state and the saved states are what they were before the
/// `Save`.
pub proof fn lemma_save_restore<S>(ops: Seq<StackOp<S>>, current: S, saved: Seq<S>)
    requires
        balanced(ops),
    ensures
        run(seq![StackOp::Save] + ops + seq![StackOp::Restore], (current, saved)) == Some(
            (current, saved),
        ),
{
    let start = (current, saved);
    let save = seq![StackOp::<S>::Save];
    let restore = seq![StackOp::<S>::Restore];
    lemma_run_single(StackOp::<S>::Save, start);
    assert(run(save, start) == Some((current, saved.push(current))));
    lemma_run_concat(save, ops, start);
    lemma_balanced_keeps_stack(ops, current, saved.push(current));
    let inner = run(ops, (current, saved.push(current)))->0;
    lemma_run_concat(save + ops, restore, start);
    lemma_run_single(StackOp::<S>::Restore, inner);
    assert(run(restore, inner) == apply(StackOp::<S>::Restore, inner));
    assert(saved.push(current).drop_last() =~= saved);
}

/// The stack of saved states.
pub struct Stack<S> {
    saved: Vec<S>,
}

impl<S> Stack<S> {
    /// The saved states, the last saved at the end.
    pub closed spec fn view(&self) -> Seq<S> {
        self.saved@
    }

    /// An empty stack.
    pub fn new() -> (stack: Self)
        ensures
            stack@ == Seq::<S>::empty(),
    {
        Stack { saved: Vec::new() }
    }

    /// How many states are saved.
    pub fn depth(&self) -> (n: usize)
        ensures
            n == self@.len(),
    {
        self.saved.len()
    }

    /// Saves `state`.
    pub fn save(&mut self, state: S)
        ensures
            final(self)@ == old(self)@.push(state),
    {
        self.saved.push(state);
    }

    /// Takes back the state that was saved last. Fails on an empty stack.
    pub fn restore(&mut self) -> (r: Result<S, RenderError>)
        ensures
            match r {
                Ok(state) => old(self)@.len() > 0 && state == old(self)@.last() && final(self)@
                    == old(self)@.drop_last(),
                Err(e) => old(self)@.len() == 0 && final(self)@ == old(self)@ && e
                    == RenderError::GraphicsStackUnderflow,
            },
    {
        match self.saved.pop() {
            Some(state) => Ok(state),
            None => Err(RenderError::GraphicsStackUnderflow),
        }
    }
}

} // verus!

//! Stack space, stack shuffling, and the guard that restores the stack.

use vstd::prelude::*;

use crate::api::Lua;
use crate::state::State;
use crate::value::Error;
use crate::value::ErrorModel;
use crate::value::Value;

verus! {

/// Drops the `n` topmost values.
pub fn pop<L: Lua>(state: &mut L, n: i32)
    requires
        old(state)@.wf(),
        0 <= n <= old(state)@.stack.len(),
    ensures
        final(state)@ == old(state)@.pop(n as int),
{
    state.settop(-n - 1);
    assert(state@ =~= old(state)@.pop(n as int));
}

/// Moves the top value to `idx`, shifting up what lies above it.
pub fn insert<L: Lua>(state: &mut L, idx: i32)
    requires
        old(state)@.wf(),
        old(state)@.on_stack(idx as int),
    ensures
        final(state)@ == old(state)@.with_stack(
            old(state)@.stack.drop_last().insert(
                old(state)@.pos(idx as int),
                old(state)@.stack.last(),
            ),
        ),
{
    state.rotate(idx, 1);
    assert(state@ =~= old(state)@.with_stack(
        old(state)@.stack.drop_last().insert(
            old(state)@.pos(idx as int),
            old(state)@.stack.last(),
        ),
    ));
}

/// Drops the value at `idx`, shifting down what lies above it.
pub fn remove<L: Lua>(state: &mut L, idx: i32)
    requires
        old(state)@.wf(),
        old(state)@.on_stack(idx as int),
    ensures
        final(state)@ == old(state)@.with_stack(
            old(state)@.stack.remove(old(state)@.pos(idx as int)),
        ),
{
    state.rotate(idx, -1);
    pop(state, 1);
    assert(state@ =~= old(state)@.with_stack(
        old(state)@.stack.remove(old(state)@.pos(idx as int)),
    ));
}

/// Moves the top value over the one at `idx`.
pub fn replace<L: Lua>(state: &mut L, idx: i32)
    requires
        old(state)@.wf(),
        old(state)@.on_stack(idx as int),
    ensures
        final(state)@ == old(state)@.with_stack(
            old(state)@.stack.update(
                old(state)@.pos(idx as int),
                old(state)@.stack.last(),
            ).drop_last(),
        ),
{
    state.copy(-1, idx);
    pop(state, 1);
    assert(state@ =~= old(state)@.with_stack(
        old(state)@.stack.update(
            old(state)@.pos(idx as int),
            old(state)@.stack.last(),
        ).drop_last(),
    ));
}

/// Makes `amount` slots free. The stack must be able to grow that far.
pub fn assert_stack<L: Lua>(state: &mut L, amount: i32)
    requires
        old(state)@.wf(),
        amount >= 0,
        old(state)@.grows(amount as int),
    ensures
        final(state)@ == old(state)@.grown(amount as int),
        final(state)@.wf(),
        final(state)@.spare() >= amount,
{
    let _ = state.checkstack(amount);
}

/// Makes `amount` slots free, or returns `Error::StackError` if the stack cannot grow that far.
pub fn check_stack<L: Lua>(state: &mut L, amount: i32) -> (r: Result<(), Error>)
    requires
        old(state)@.wf(),
        amount >= 0,
    ensures
        r is Ok <==> old(state)@.grows(amount as int),
        r matches Err(e) ==> e@ == ErrorModel::StackError,
        final(state)@ == old(state)@.grown(amount as int),
        final(state)@.wf(),
        r is Ok ==> final(state)@.spare() >= amount,
{
    if !state.checkstack(amount) {
        Err(Error::StackError)
    } else {
        Ok(())
    }
}

/// What a guard with the record `top` and `extra` leaves of `stack`: the `top` lowest values,
/// and the `extra` topmost ones; where `extra` is negative, that many values fewer.
pub open spec fn guarded(stack: Seq<Value>, top: int, extra: int) -> Seq<Value> {
    if extra > 0 {
        stack.take(top) + stack.skip(stack.len() - extra)
    } else {
        stack.take(top + extra)
    }
}

/// A record of the stack size.
pub struct StackGuard {
    top: i32,
    extra: i32,
}

impl StackGuard {
    /// The stack size on record.
    pub closed spec fn top(self) -> int {
        self.top as int
    }

    /// How many values from the top of the stack are kept.
    pub closed spec fn extra(self) -> int {
        self.extra as int
    }

    /// The stack holds as many values as the guard keeps.
    pub open spec fn covers<O>(self, s: State<O>) -> bool {
        0 <= self.top() + self.extra() <= s.stack.len()
    }

    /// A guard that records the stack size, and keeps nothing beyond it.
    pub fn new<L: Lua>(state: &L) -> (g: StackGuard)
        requires
            state@.wf(),
        ensures
            g.top() == state@.stack.len(),
            g.extra() == 0,
    {
        StackGuard { top: state.gettop(), extra: 0 }
    }

    /// A guard that records the stack size, and keeps `extra` values from the top.
    pub fn new_extra<L: Lua>(state: &L, extra: i32) -> (g: StackGuard)
        requires
            state@.wf(),
        ensures
            g.top() == state@.stack.len(),
            g.extra() == extra,
    {
        StackGuard { top: state.gettop(), extra }
    }

    /// The number of values that `drop` needs to find on the stack.
    pub fn needed(&self) -> (n: i64)
        ensures
            n == self.top() + self.extra(),
    {
        self.top as i64 + self.extra as i64
    }

    /// How many values fewer than on record there are when the stack holds `top` of them.
    pub fn missing(&self, top: i32) -> (n: i64)
        ensures
            n == self.top() - top,
    {
        self.top as i64 - top as i64
    }

    /// Drops the values between those on record and the extra ones.
    pub fn drop<L: Lua>(self, state: &mut L)
        requires
            old(state)@.wf(),
            self.top() >= 0,
            self.covers(old(state)@),
        ensures
            final(state)@ == old(state)@.with_stack(
                guarded(old(state)@.stack, self.top(), self.extra()),
            ),
            final(state)@.wf(),
    {
        let top: i32 = state.gettop();
        let ghost s = state@.stack;
        if top > self.top + self.extra {
            if self.extra > 0 {
                state.rotate(self.top + 1, self.extra);
            }
            state.settop(self.top + self.extra);
        }
        assert(state@.stack =~= guarded(s, self.top as int, self.extra as int));
    }
}

} // verus!

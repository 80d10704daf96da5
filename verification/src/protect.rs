//! Work on the interpreter that may raise an error, under protection.

use vstd::prelude::*;

use crate::api::handled;
use crate::api::pcall_run;
use crate::api::CFn;
use crate::api::Interp;
use crate::api::Lua;
use crate::failure::pop_error;
use crate::failure::popped;
use crate::failure::ErrorTraceback;
use crate::stack::pop;
use crate::stack::remove;
use crate::state::known;
use crate::state::memory_message;
use crate::state::State;
use crate::value::CFunction;
use crate::value::Failed;
use crate::value::Failure;
use crate::value::Pointer;
use crate::value::Raised;
use crate::value::Status;
use crate::value::Value;
use crate::value::FAILURE_KEY;
use crate::value::MAX_STACK;
use crate::value::MIN_STACK;
use crate::value::MULTRET;

verus! {

/// Work that calls the interpreter and may raise an error.
pub trait Body<L: Interp>: Sized {
    type Value;

    /// The work can be done in this state.
    spec fn accepts(&self, s: State<L::Object>) -> bool;

    /// The state that the work leaves, and how it ends.
    spec fn effect(&self, s: State<L::Object>) -> (State<L::Object>, Result<Self::Value, Raised>);

    fn run(self, state: &mut L) -> (r: Result<Self::Value, Raised>)
        requires
            old(state)@.wf(),
            self.accepts(old(state)@),
        ensures
            final(state)@ == self.effect(old(state)@).0,
            r == self.effect(old(state)@).1,
            final(state)@.wf(),
            old(state)@.ready() ==> final(state)@.ready(),
            final(state)@.env == old(state)@.env,
            r matches Err(e) ==> known(e.status, old(state)@.env.version),
    ;
}

/// The C function that runs a body. Its last argument is the address of its parameters.
pub struct DoCall<F> {
    pub function: F,
    pub nresults: i32,
}

impl<L: Lua, F: Body<L>> CFn<L> for DoCall<F> {
    type Value = F::Value;

    open spec fn function(&self) -> CFunction {
        CFunction::DoCall
    }

    open spec fn accepts(&self, s: State<L::Object>) -> bool {
        &&& s.stack.len() >= 1
        &&& self.function.accepts(s.pop(1))
        &&& self.nresults == MULTRET || self.nresults >= 0
        &&& self.function.effect(s.pop(1)).1 is Ok ==> self.nresults <= self.function.effect(
            s.pop(1),
        ).0.stack.len()
    }

    open spec fn effect(&self, s: State<L::Object>) -> (
        State<L::Object>,
        Result<(i32, F::Value), Raised>,
    ) {
        let (t, r) = self.function.effect(s.pop(1));
        match r {
            Ok(v) => (
                t,
                Ok(
                    (
                        if self.nresults == MULTRET {
                            t.stack.len() as i32
                        } else {
                            self.nresults
                        },
                        v,
                    ),
                ),
            ),
            Err(e) => (t, Err(e)),
        }
    }

    fn run(self, state: &mut L) -> (r: Result<(i32, F::Value), Raised>) {
        pop(state, 1);
        let v = self.function.run(state)?;
        if self.nresults == MULTRET {
            Ok((state.gettop(), v))
        } else {
            Ok((self.nresults, v))
        }
    }
}

/// How a protected operation ended, with a failure by its model.
pub open spec fn ended<T>(r: Result<T, Failure>) -> Result<T, Failed> {
    match r {
        Ok(v) => Ok(v),
        Err(e) => Err(e@),
    }
}

/// The frame in which `protect_lua` runs a body: the topmost `nargs` values of the caller's.
pub open spec fn body_frame<O>(s: State<O>, nargs: int) -> State<O> {
    State {
        stack: s.args(nargs),
        room: (nargs + 1 + MIN_STACK) as nat,
        upvalues: Seq::empty(),
        ..s.spent()
    }
}

/// The caller `s`, without the arguments of a protected call, after that call failed with
/// `status` and the error object `v`, in the state `t`.
pub open spec fn failed<T, O>(
    s: State<O>,
    nargs: int,
    t: State<O>,
    status: Status,
    v: Value,
) -> (State<O>, Result<T, Failed>) {
    let (u, e) = popped(
        s.back(t, s.stack.take(s.stack.len() - nargs).push(v)),
        status,
    );
    (u, Err(e))
}

/// Where the body `f` fails in `s`, it can be told whether the error is a host failure: the
/// failure metatable is registered by then, or neither the error nor what the message handler
/// makes of it needs that.
pub open spec fn fails_tellably<L: Lua, F: Body<L>>(f: F, s: State<L::Object>) -> bool {
    let (t, r) = f.effect(s);
    let (u, _, w) = handled::<L, ErrorTraceback>(t, ErrorTraceback, Seq::empty(), t.error);
    r matches Err(e) ==> t.heap.cached.contains(FAILURE_KEY) || {
        &&& t.tells(t.error, FAILURE_KEY)
        &&& e.status == Status::ErrRun ==> u.tells(w, FAILURE_KEY)
    }
}

/// What `protect_lua` does.
pub open spec fn protected<L: Interp, F: Body<L>>(
    s: State<L::Object>,
    nargs: int,
    nresults: int,
    f: F,
) -> (State<L::Object>, Result<F::Value, Failed>)
    where L: Lua
{
    let below = s.stack.take(s.stack.len() - nargs);
    if !s.can_enter(nargs + 1) {
        failed(s, nargs, s.spent(), Status::ErrMem, memory_message())
    } else {
        let (t, r) = f.effect(body_frame(s, nargs));
        match r {
            Ok(v) => {
                let results = if nresults == MULTRET {
                    t.stack
                } else {
                    t.stack.skip(t.stack.len() - nresults)
                };
                if below.len() + 1 + results.len() <= MAX_STACK {
                    (
                        State {
                            room: if below.len() + 1 + results.len() > s.room {
                                below.len() + 1 + results.len()
                            } else {
                                s.room
                            },
                            ..s.back(t, below + results)
                        },
                        Ok(v),
                    )
                } else {
                    failed(s, nargs, t, Status::ErrMem, memory_message())
                }
            },
            Err(e) => if e.status == Status::ErrRun {
                let (u, status, w) = handled::<L, ErrorTraceback>(
                    t,
                    ErrorTraceback,
                    Seq::empty(),
                    t.error,
                );
                failed(s, nargs, u, status, w)
            } else {
                failed(s, nargs, t, e.status, t.error)
            },
        }
    }
}

/// The frame of `s` as `protect_lua` prepares it for the protected call.
spec fn prepared<O>(s: State<O>, nargs: int) -> State<O> {
    s.with_stack(
        s.stack.take(s.stack.len() - nargs).push(Value::CFunction(CFunction::ErrorTraceback)).push(
            Value::CFunction(CFunction::DoCall),
        ) + s.args(nargs).push(Value::LightUserdata(Pointer::Params)),
    )
}

proof fn lemma_prepared<O>(s: State<O>, nargs: int)
    requires
        s.wf(),
        0 <= nargs <= s.stack.len(),
    ensures
        ({
            let c = prepared(s, nargs);
            let below = s.stack.take(s.stack.len() - nargs);
            &&& c.stack.len() == s.stack.len() + 3
            &&& c.below(nargs + 1) == below.push(Value::CFunction(CFunction::ErrorTraceback))
            &&& c.callee(nargs + 1) == Value::CFunction(CFunction::DoCall)
            &&& c.at(s.stack.len() - nargs + 1) == Value::CFunction(CFunction::ErrorTraceback)
            &&& c.enter(Seq::empty(), c.args(nargs + 1)).pop(1) == body_frame(s, nargs)
            &&& c.enter(Seq::empty(), c.args(nargs + 1)).stack.len() == nargs + 1
        }),
{
    let c = prepared(s, nargs);
    let below = s.stack.take(s.stack.len() - nargs);
    assert(c.below(nargs + 1) =~= below.push(Value::CFunction(CFunction::ErrorTraceback)));
    assert(c.args(nargs + 1) =~= s.args(nargs).push(Value::LightUserdata(Pointer::Params)));
    assert(c.enter(Seq::empty(), c.args(nargs + 1)).pop(1) =~= body_frame(s, nargs));
}

/// The protected call does what `protected` says, but for the handler under its results and
/// the error on top.
proof fn lemma_protected<L: Lua, F: Body<L>>(
    s: State<L::Object>,
    nargs: i32,
    nresults: i32,
    f: F,
)
    requires
        s.wf(),
        0 <= nargs <= s.stack.len(),
        nresults >= MULTRET,
        s.spare() >= 3,
        s.can_enter(nargs + 1) && f.effect(body_frame(s, nargs as int)).1 is Ok ==> nresults
            <= f.effect(body_frame(s, nargs as int)).0.stack.len() <= MAX_STACK,
        s.can_enter(nargs + 1) ==> fails_tellably::<L, F>(f, body_frame(s, nargs as int)),
    ensures
        ({
            let c = prepared(s, nargs as int);
            let start = s.stack.len() - nargs;
            let (p, status, out) = pcall_run::<L, DoCall<F>, ErrorTraceback>(
                c,
                DoCall { function: f, nresults },
                ErrorTraceback,
                nargs + 1,
                nresults as int,
                start + 1,
            );
            let q = p.with_stack(p.stack.remove(start));
            &&& p.stack.len() > start
            &&& p.room >= s.room
            &&& match out {
                Some(v) => protected::<L, F>(s, nargs as int, nresults as int, f) == (
                    q,
                    Ok::<F::Value, Failed>(v),
                ),
                None => {
                    let (u, e) = popped(q, status);
                    &&& q.stack.len() == start + 1
                    &&& q.room == s.room
                    &&& q.tells(q.stack.last(), FAILURE_KEY) || s.can_enter(nargs + 1) && f.effect(
                        body_frame(s, nargs as int),
                    ).0.heap.cached.contains(FAILURE_KEY)
                    &&& protected::<L, F>(s, nargs as int, nresults as int, f) == (
                        u,
                        Err::<F::Value, Failed>(e),
                    )
                },
            }
        }),
{
    let c = prepared(s, nargs as int);
    let start = s.stack.len() - nargs;
    let below = s.stack.take(start);
    let (p, status, out) = pcall_run::<L, DoCall<F>, ErrorTraceback>(
        c,
        DoCall { function: f, nresults },
        ErrorTraceback,
        nargs + 1,
        nresults as int,
        start + 1,
    );
    lemma_prepared(s, nargs as int);
    assert(c.heap.upvalues(c.callee(nargs + 1)) == Seq::<Value>::empty());
    assert(c.heap.upvalues(c.at(start + 1)) == Seq::<Value>::empty());
    let q = p.with_stack(p.stack.remove(start));
    match out {
        Some(v) => {
            let t = f.effect(body_frame(s, nargs as int)).0;
            let n = if nresults == MULTRET { t.stack.len() as int } else { nresults as int };
            assert(crate::state::adjust(t.stack.skip(t.stack.len() - n), nresults as int)
                =~= t.stack.skip(t.stack.len() - n));
            assert(t.stack.skip(0) =~= t.stack);
            assert(q.stack =~= below + t.stack.skip(t.stack.len() - n));
            assert(protected::<L, F>(s, nargs as int, nresults as int, f).0 =~= q);
        },
        None => {
            assert(q.stack =~= below.push(p.stack.last()));
            let t = if !c.can_enter(nargs + 1) {
                s.spent()
            } else {
                f.effect(body_frame(s, nargs as int)).0
            };
            assert(q =~= s.back(p, below.push(p.stack.last())));
        },
    }
}

/// Runs `f` under protection, in a frame of its own that holds the `nargs` topmost values, and
/// replaces these by its `nresults` topmost ones, or by all it leaves.
///
/// Uses three stack slots.
pub fn protect_lua<L: Lua, F: Body<L>>(
    state: &mut L,
    nargs: i32,
    nresults: i32,
    f: F,
) -> (r: Result<F::Value, Failure>)
    requires
        old(state)@.wf(),
        0 <= nargs <= old(state)@.stack.len(),
        nresults >= MULTRET,
        old(state)@.spare() >= 3,
        old(state)@.can_enter(nargs + 1) ==> {
            let frame = body_frame(old(state)@, nargs as int);
            &&& f.accepts(frame)
            &&& f.effect(frame).1 is Ok ==> nresults <= f.effect(frame).0.stack.len() <= MAX_STACK
            &&& fails_tellably::<L, F>(f, frame)
        },
    ensures
        (final(state)@, ended(r)) == protected::<L, F>(
            old(state)@,
            nargs as int,
            nresults as int,
            f,
        ),
        final(state)@.wf(),
        old(state)@.ready() ==> final(state)@.ready(),
        final(state)@.env == old(state)@.env,
{
    let ghost s = state@;
    let stack_start: i32 = state.gettop() - nargs;

    state.pushcfunction(CFunction::ErrorTraceback);
    state.pushcfunction(CFunction::DoCall);
    if nargs > 0 {
        state.rotate(stack_start + 1, 2);
    }
    state.pushlightuserdata(Pointer::Params);
    proof {
        assert(state@ =~= prepared(s, nargs as int));
        lemma_prepared(s, nargs as int);
        lemma_protected::<L, F>(s, nargs, nresults, f);
    }
    let (ret, out) = state.pcall_run(
        DoCall { function: f, nresults },
        ErrorTraceback,
        nargs + 1,
        nresults,
        stack_start + 1,
    );
    remove(state, stack_start + 1);
    match out {
        Some(v) => Ok(v),
        None => Err(pop_error(state, ret)),
    }
}

} // verus!

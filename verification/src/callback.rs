//! Host callbacks, and how their errors and panics get through the interpreter.

use vstd::prelude::*;

use crate::api::overflowed;
use crate::api::traceback;
use crate::api::Interp;
use crate::api::Lua;
use crate::failure::get_gc_metatable;
use crate::failure::to_string;
use crate::failure::value_text;
use crate::lemmas::lemma_metatable_wf;
use crate::lemmas::lemma_payload_wf;
use crate::lemmas::lemma_userdata_wf;
use crate::stack::pop;
use crate::stack::remove;
use crate::state::Heap;
use crate::state::State;
use crate::text::text_of;
use crate::userdata::as_metatable;
use crate::userdata::with_userdata;
use crate::value::Error;
use crate::value::ErrorModel;
use crate::value::Failed;
use crate::value::Failure;
use crate::value::FailureModel;
use crate::value::PanicModel;
use crate::value::PanicPayload;
use crate::value::Payload;
use crate::value::PayloadModel;
use crate::value::Pointer;
use crate::value::Raised;
use crate::value::Status;
use crate::value::Value;
use crate::value::WrappedFailure;
use crate::value::FAILURE_KEY;
use crate::value::TRACEBACK_STACK;

verus! {

/// How a host callback ended.
pub enum Ending<T> {
    Returned(T),
    Failed(Error),
    Panicked(PanicPayload),
}

#[verifier::reject_recursive_types(T)]
pub ghost enum EndingModel<T> {
    Returned(T),
    Failed(ErrorModel),
    Panicked(PanicModel),
}

impl<T> Ending<T> {
    pub open spec fn view(&self) -> EndingModel<T> {
        match *self {
            Ending::Returned(t) => EndingModel::Returned(t),
            Ending::Failed(e) => EndingModel::Failed(e@),
            Ending::Panicked(p) => EndingModel::Panicked(p@),
        }
    }
}

/// The lowest slot, with the userdata in it, is left alone on the way from `s` to `t`, and so is
/// the failure metatable.
pub open spec fn holds_on<O>(s: State<O>, t: State<O>) -> bool {
    &&& t.stack.len() >= 1
    &&& t.stack[0] == s.stack[0]
    &&& t.room >= s.room
    &&& s.stack[0] matches Value::Userdata(a) ==> {
        &&& t.heap.userdata.contains_key(a)
        &&& t.heap.userdata[a] == s.heap.userdata[a]
    }
    &&& t.heap.registered(Pointer::GcMetatable(FAILURE_KEY)) == s.heap.registered(
        Pointer::GcMetatable(FAILURE_KEY),
    )
}

/// The work of a callback. It finds its `nargs` arguments above the lowest slot.
pub trait Callback<L: Interp>: Sized {
    type Value;

    spec fn accepts(&self, s: State<L::Object>) -> bool;

    /// The state that the work leaves, and how it ends.
    spec fn effect(&self, s: State<L::Object>) -> (
        State<L::Object>,
        EndingModel<Self::Value>,
    );

    fn run(self, state: &mut L, nargs: i32) -> (r: Ending<Self::Value>)
        requires
            old(state)@.wf(),
            nargs >= 0,
            old(state)@.stack.len() == nargs + 1,
            old(state)@.stack[0] matches Value::Userdata(a)
                && old(state)@.heap.userdata.contains_key(a)
                && old(state)@.heap.userdata[a].metatable is None,
            self.accepts(old(state)@),
        ensures
            final(state)@ == self.effect(old(state)@).0,
            r@ == self.effect(old(state)@).1,
            final(state)@.wf(),
            old(state)@.ready() ==> final(state)@.ready(),
            final(state)@.env == old(state)@.env,
            holds_on(old(state)@, final(state)@),
    ;
}

/// The slots that `callback_error` needs for itself.
pub open spec fn callback_slots(nargs: int) -> int {
    if nargs < 2 {
        2 - nargs
    } else {
        1
    }
}

/// The frame in which a callback runs: below its arguments lies the userdata `a` that is to
/// hold its failure.
pub open spec fn callback_frame<O>(s: State<O>, a: u64) -> State<O> {
    s.spent().with_heap(with_userdata(s.heap, a, PayloadModel::Vacant)).with_stack(
        seq![Value::Userdata(a)] + s.stack,
    )
}

/// The failure `w` is in the userdata `a`, the only value on the stack.
pub open spec fn wrapped<O>(s: State<O>, a: u64, w: FailureModel) -> State<O> {
    s.with_stack(seq![Value::Userdata(a)]).with_heap(
        s.heap.with_payload(a, PayloadModel::Failure(w)).with_metatable(
            Value::Userdata(a),
            as_metatable(s.heap.registered(Pointer::GcMetatable(FAILURE_KEY))),
        ),
    )
}

/// The userdata `a`, on top of the stack, goes in flight.
pub open spec fn thrown<O>(s: State<O>, a: u64) -> State<O> {
    s.with_stack(Seq::empty()).throw(Value::Userdata(a))
}

/// The state in which the host error `e`, with the traceback `text`, is in flight.
pub open spec fn error_thrown<O>(s: State<O>, a: u64, e: ErrorModel, text: Seq<char>) -> State<O> {
    thrown(
        s.with_heap(
            s.heap.with_payload(
                a,
                PayloadModel::Failure(
                    FailureModel::Error(
                        ErrorModel::CallbackError { traceback: text, cause: Box::new(e) },
                    ),
                ),
            ),
        ),
        a,
    )
}

/// The frame in which `callback_error` runs a callback.
pub open spec fn work_frame<O>(s: State<O>) -> State<O> {
    let g = s.grown(callback_slots(s.stack.len() as int));
    callback_frame(g, g.memory[0]->0)
}

/// A callback gets to run: there are the slots and the memory that `callback_error` needs.
pub open spec fn gets_to_run<O>(s: State<O>) -> bool {
    let n = callback_slots(s.stack.len() as int);
    s.grows(n) && s.grown(n).grant()
}

/// The callback `f` can be run in `s`, and its failure can be wrapped, if it fails: the failure
/// metatable is registered by then.
pub open spec fn runnable<L: Interp, F: Callback<L>>(s: State<L::Object>, f: F) -> bool {
    let (t, ending) = f.effect(work_frame(s));
    let m = s.heap.registered(Pointer::GcMetatable(FAILURE_KEY));
    &&& f.accepts(work_frame(s))
    &&& ending is Returned || {
        &&& s.heap.cached.contains(FAILURE_KEY) || t.heap.cached.contains(FAILURE_KEY)
        &&& m is Table || m is Nil
    }
}

/// The error object `v` wraps the failure with which a callback ended: the panic, or the error as
/// the cause of a callback error with the traceback `text`.
pub open spec fn carries<T, O>(
    h: Heap<O>,
    v: Value,
    ending: EndingModel<T>,
    text: Seq<char>,
) -> bool {
    match ending {
        EndingModel::Returned(_) => true,
        EndingModel::Failed(e) => h.failure(v) == Some(
            FailureModel::Error(
                ErrorModel::CallbackError { traceback: text, cause: Box::new(e) },
            ),
        ),
        EndingModel::Panicked(p) => h.failure(v) == Some(FailureModel::Panic(Some(p))),
    }
}

/// The traceback of a callback that failed, in the state `t` that it left.
pub open spec fn failure_trace<O>(t: State<O>) -> Seq<char> {
    if t.with_stack(seq![t.stack[0]]).grows(TRACEBACK_STACK as int) {
        text_of(t.text())
    } else {
        "<not enough stack space for traceback>"@
    }
}

/// The memory does not suffice for the traceback of a callback that failed, in the state `t`
/// that it left.
pub open spec fn traceless<O>(t: State<O>) -> bool {
    let s = t.with_stack(seq![t.stack[0]]);
    s.grows(TRACEBACK_STACK as int) && !s.grown(TRACEBACK_STACK as int).grant()
}

/// The end of a callback that failed with `e`.
pub open spec fn callback_failed<O>(s: State<O>, a: u64, e: ErrorModel) -> (State<O>, Raised) {
    let w = wrapped(s, a, FailureModel::Error(e));
    let g = w.grown(TRACEBACK_STACK as int);
    if !w.grows(TRACEBACK_STACK as int) {
        (
            error_thrown(g, a, e, "<not enough stack space for traceback>"@),
            Raised { status: Status::ErrRun },
        )
    } else {
        let (u, r) = traceback(g, None, 0);
        match r {
            Err(x) => (u, x),
            Ok(_) => (
                error_thrown(u, a, e, value_text(u, -1)),
                Raised { status: Status::ErrRun },
            ),
        }
    }
}

/// What `callback_error` does.
pub open spec fn callback_run<L: Interp, F: Callback<L>>(s0: State<L::Object>, f: F) -> (
    State<L::Object>,
    Result<F::Value, Raised>,
) {
    let nargs = s0.stack.len() as int;
    let s = s0.grown(callback_slots(nargs));
    if !s0.grows(callback_slots(nargs)) {
        overflowed(s, Some("not enough stack space for callback error handling"@))
    } else if !s.grant() {
        (s.out_of_memory(), Err(Raised { status: Status::ErrMem }))
    } else {
        let a = s.memory[0]->0;
        let (t, ending) = f.effect(callback_frame(s, a));
        match ending {
            EndingModel::Returned(v) => (t.with_stack(t.stack.remove(0)), Ok(v)),
            EndingModel::Failed(e) => {
                let (u, x) = callback_failed(t, a, e);
                (u, Err(x))
            },
            EndingModel::Panicked(p) => (
                thrown(wrapped(t, a, FailureModel::Panic(Some(p))), a),
                Err(Raised { status: Status::ErrRun }),
            ),
        }
    }
}

/// Writes the failure `w` to the userdata `ud`, and leaves that one alone on the stack.
fn wrap<L: Lua>(state: &mut L, ud: u64, w: WrappedFailure)
    requires
        old(state)@.wf(),
        old(state)@.heap.cached.contains(FAILURE_KEY),
        old(state)@.room >= 2,
        old(state)@.stack.len() >= 1,
        old(state)@.stack[0] == Value::Userdata(ud),
        old(state)@.heap.userdata.contains_key(ud),
        old(state)@.heap.userdata[ud].metatable is None,
        old(state)@.heap.registered(Pointer::GcMetatable(FAILURE_KEY)) is Table
            || old(state)@.heap.registered(Pointer::GcMetatable(FAILURE_KEY)) is Nil,
    ensures
        final(state)@ == wrapped(old(state)@, ud, w@),
        final(state)@.wf(),
{
    let ghost s = state@;
    state.settop(1);
    assert(state@.stack =~= seq![Value::Userdata(ud)]);
    proof {
        let p = PayloadModel::Failure(w@);
        lemma_payload_wf(s.heap, ud, p);
        let h = s.heap.with_payload(ud, p);
        assert(forall|q: Pointer| #[trigger] h.registered(q) == s.heap.registered(q));
        lemma_metatable_wf(
            h,
            ud,
            as_metatable(s.heap.registered(Pointer::GcMetatable(FAILURE_KEY))),
        );
    }
    state.put_payload(ud, Payload::Failure(w));
    get_gc_metatable(state, FAILURE_KEY);
    state.setmetatable(-2);
    assert(state@ =~= wrapped(s, ud, w@));
}

/// Runs `f` as the work of a callback. An error or a panic of it is raised as a Lua error that
/// wraps it, so that `pop_error` returns the error, as the cause of a callback error, or
/// resumes the panic. The memory for that is set aside before `f` runs.
///
/// The stack must hold the arguments of the callback and nothing else.
pub fn callback_error<L: Lua, F: Callback<L>>(state: &mut L, f: F) -> (r: Result<F::Value, Raised>)
    requires
        old(state)@.wf(),
        gets_to_run(old(state)@) ==> runnable::<L, F>(old(state)@, f),
    ensures
        (final(state)@, r) == callback_run::<L, F>(old(state)@, f),
        final(state)@.wf(),
        old(state)@.ready() ==> final(state)@.ready(),
        gets_to_run(old(state)@) ==> {
            let frame = work_frame(old(state)@);
            let (t, ending) = f.effect(frame);
            &&& holds_on(frame, t)
            &&& r is Ok <==> ending is Returned
            &&& ending matches EndingModel::Returned(v) ==> {
                &&& r == Ok::<F::Value, Raised>(v)
                &&& final(state)@.stack == t.stack.skip(1)
                &&& final(state)@.heap == t.heap
            }
            &&& ending is Failed && traceless(t) ==> r == Err::<F::Value, Raised>(
                Raised { status: Status::ErrMem },
            )
            &&& !(ending is Returned) && !(ending is Failed && traceless(t)) ==> {
                &&& r == Err::<F::Value, Raised>(Raised { status: Status::ErrRun })
                &&& old(state)@.heap.registered(Pointer::GcMetatable(FAILURE_KEY)) is Table
                    ==> carries(final(state)@.heap, final(state)@.error, ending, failure_trace(t))
            }
        },
{
    let nargs: i32 = state.gettop();
    let extra_stack: i32 = if nargs < 2 {
        2 - nargs
    } else {
        1
    };
    state.checkstack_or_raise(
        extra_stack,
        Some("not enough stack space for callback error handling"),
    )?;
    let ghost s = state@;

    let ud: u64 = state.newuserdata()?;
    proof {
        lemma_userdata_wf(s.heap, ud, PayloadModel::Vacant);
    }
    state.rotate(1, 1);
    proof {
        assert(state@ =~= callback_frame(s, ud));
        assert(forall|q: Pointer| #[trigger]
            state@.heap.registered(q) == s.heap.registered(q));
    }

    match f.run(state, nargs) {
        Ending::Returned(r) => {
            let ghost t = state@;
            remove(state, 1);
            assert(state@.stack =~= t.stack.skip(1));
            Ok(r)
        },
        Ending::Failed(err) => {
            let ghost t = state@;
            let cause = err.clone();
            wrap(state, ud, WrappedFailure::Error(err));
            let traceback = if state.checkstack(TRACEBACK_STACK) {
                state.traceback(None, 0)?;
                let traceback = to_string(state, -1);
                assert(Seq::<u8>::empty() + t.text() =~= t.text());
                pop(state, 1);
                assert(state@.stack =~= seq![Value::Userdata(ud)]);
                traceback
            } else {
                "<not enough stack space for traceback>".to_owned()
            };
            let ghost v = state@;
            let ghost e = ErrorModel::CallbackError {
                traceback: traceback@,
                cause: Box::new(cause@),
            };
            proof {
                lemma_payload_wf(v.heap, ud, PayloadModel::Failure(FailureModel::Error(e)));
            }
            state.put_payload(
                ud,
                Payload::Failure(
                    WrappedFailure::Error(
                        Error::CallbackError { traceback, cause: Box::new(cause) },
                    ),
                ),
            );
            let raised = state.error();
            proof {
                assert(state@.stack =~= Seq::empty());
                assert(state@.heap.registered(Pointer::GcMetatable(FAILURE_KEY))
                    == t.heap.registered(Pointer::GcMetatable(FAILURE_KEY)));
            }
            Err(raised)
        },
        Ending::Panicked(p) => {
            let ghost t = state@;
            wrap(state, ud, WrappedFailure::Panic(Some(p)));
            let raised = state.error();
            proof {
                assert(state@.stack =~= Seq::empty());
                assert(state@.heap.registered(Pointer::GcMetatable(FAILURE_KEY))
                    == t.heap.registered(Pointer::GcMetatable(FAILURE_KEY)));
            }
            Err(raised)
        },
    }
}

} // verus!

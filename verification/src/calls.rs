//! `pcall` and `xpcall` for Lua code, which cannot catch a host panic, and the main thread.

use vstd::prelude::*;

use crate::api::overflowed;
use crate::api::xpcall;
use crate::api::CFn;
use crate::api::Lua;
use crate::failure::get_gc_userdata;
use crate::lemmas::lemma_closure_wf;
use crate::stack::insert;
use crate::stack::pop;
use crate::stack::remove;
use crate::stack::replace;
use crate::state::known;
use crate::state::memory_message;
use crate::state::name;
use crate::state::Call;
use crate::state::ClosureModel;
use crate::state::Outcome;
use crate::state::State;
use crate::userdata::with_closure;
use crate::value::CFunction;
use crate::value::LuaVersion;
use crate::value::Payload;
use crate::value::Raised;
use crate::value::Status;
use crate::value::Value;
use crate::value::WrappedFailure;
use crate::value::FAILURE_KEY;
use crate::value::MAX_STACK;
use crate::value::MULTRET;
use crate::value::REGISTRY_INDEX;
use crate::value::RIDX_MAINTHREAD;

verus! {

/// The value at `index` wraps a panic, resumed or not.
fn is_panic<L: Lua>(state: &mut L, index: i32) -> (r: bool)
    requires
        old(state)@.wf(),
        old(state)@.valid(index as int),
        old(state)@.tells(old(state)@.at(index as int), FAILURE_KEY),
        old(state)@.spare() >= 2,
    ensures
        r == old(state)@.heap.wraps_panic(old(state)@.at(index as int)),
        final(state)@ == old(state)@,
{
    match get_gc_userdata(state, index, FAILURE_KEY) {
        Some(ud) => match state.payload(ud) {
            Payload::Failure(WrappedFailure::Panic(_)) => true,
            _ => false,
        },
        None => false,
    }
}

/// A call with too few arguments raises `msg`.
pub open spec fn arguments_missing<O>(s: State<O>, msg: &str) -> (State<O>, Result<i32, Raised>) {
    if s.grant() {
        (s.spent().throw(name(msg)), Err(Raised { status: Status::ErrRun }))
    } else {
        (s.out_of_memory(), Err(Raised { status: Status::ErrMem }))
    }
}

/// Raises `msg`.
fn refuse<L: Lua>(state: &mut L, msg: &str) -> (r: Result<i32, Raised>)
    requires
        old(state)@.wf(),
        old(state)@.spare() >= 1,
    ensures
        (final(state)@, r) == arguments_missing(old(state)@, msg),
{
    let ghost s = state@;
    state.pushlstring(msg.as_bytes())?;
    let e = state.error();
    assert(state@.stack =~= s.stack);
    Err(e)
}

/// What becomes of the error `v` that a call ended with, where `base` lies below it: a panic is
/// raised again, and any other error is handed out behind `false`.
pub open spec fn caught<O>(s: State<O>, base: Seq<Value>, v: Value) -> (
    State<O>,
    Result<i32, Raised>,
) {
    if s.heap.wraps_panic(v) {
        (s.with_stack(base).throw(v), Err(Raised { status: Status::ErrRun }))
    } else {
        (s.with_stack(base.push(Value::Boolean(false)).push(v)), Ok(2))
    }
}

/// Hands out the error on top, or raises it again.
fn catch<L: Lua>(state: &mut L) -> (r: Result<i32, Raised>)
    requires
        old(state)@.wf(),
        old(state)@.stack.len() >= 1,
        old(state)@.spare() >= 2,
        old(state)@.tells(old(state)@.stack.last(), FAILURE_KEY),
    ensures
        (final(state)@, r) == caught(
            old(state)@,
            old(state)@.stack.drop_last(),
            old(state)@.stack.last(),
        ),
{
    let ghost s = state@;
    if is_panic(state, -1) {
        let e = state.error();
        assert(state@.stack =~= s.stack.drop_last());
        return Err(e);
    }
    state.pushboolean(false);
    insert(state, -2);
    assert(state@.stack =~= s.stack.drop_last().push(Value::Boolean(false)).push(s.stack.last()));
    Ok(2)
}

/// What `safe_pcall` does.
pub open spec fn pcalled<O>(s0: State<O>) -> (State<O>, Result<i32, Raised>) {
    let s = s0.grown(2);
    let t = s.asked(Call::Function(s.stack[0], s.stack.skip(1)));
    if !s0.grows(2) {
        overflowed(s, None)
    } else if s.stack.len() == 0 {
        arguments_missing(s, "not enough arguments to pcall")
    } else {
        match s.reply().outcome {
            Outcome::Returns(vs) => if vs.len() < MAX_STACK {
                (s.back(t, seq![Value::Boolean(true)] + vs), Ok((1 + vs.len()) as i32))
            } else {
                caught(s.back(t, seq![memory_message()]), Seq::empty(), memory_message())
            },
            Outcome::Raises(_, v) => caught(s.back(t, seq![v]), Seq::empty(), v),
        }
    }
}

/// Where the call fails, it can be told whether the error is a host failure.
pub open spec fn pcall_tells<O>(s: State<O>) -> bool {
    s.reply().outcome matches Outcome::Raises(_, v) ==> s.replied().tells(v, FAILURE_KEY)
}

/// A variant of `pcall` that does not allow Lua to catch host panics.
///
/// Calls the lowest value of the frame with those above it.
pub fn safe_pcall<L: Lua>(state: &mut L) -> (r: Result<i32, Raised>)
    requires
        old(state)@.wf(),
        old(state)@.ready() || pcall_tells(old(state)@),
    ensures
        (final(state)@, r) == pcalled(old(state)@),
        old(state)@.grows(2) && old(state)@.stack.len() >= 1 ==> {
            &&& final(state)@.calls == old(state)@.calls.push(
                Call::Function(old(state)@.stack[0], old(state)@.stack.skip(1)),
            )
            &&& old(state)@.reply().outcome matches Outcome::Returns(vs) ==> vs.len() >= MAX_STACK
                || r == Ok::<i32, Raised>((1 + vs.len()) as i32) && final(state)@.stack == seq![
                Value::Boolean(true),
            ] + vs
        },
        final(state)@.wf(),
        old(state)@.ready() ==> final(state)@.ready(),
{
    state.checkstack_or_raise(2, None)?;
    let ghost s = state@;

    let top: i32 = state.gettop();
    if top == 0 {
        return refuse(state, "not enough arguments to pcall");
    }
    // The flag goes below the function: the results may leave no room above them.
    state.pushboolean(true);
    insert(state, 1);
    assert(state@.stack =~= seq![Value::Boolean(true)] + s.stack);
    assert(state@.below(top - 1) =~= seq![Value::Boolean(true)]);
    assert(state@.args(top - 1) =~= s.stack.skip(1));
    let ghost t = s.asked(Call::Function(s.stack[0], s.stack.skip(1)));

    if state.pcall(top - 1, MULTRET) == Status::Success {
        Ok(state.gettop())
    } else {
        remove(state, 1);
        assert(state@.stack =~= seq![state@.stack.last()]);
        assert(state@.stack.drop_last() =~= Seq::empty());
        assert(state@ =~= s.back(t, seq![state@.stack.last()]));
        catch(state)
    }
}

/// What `xpcall_msgh` does.
pub open spec fn handled_by_upvalue<O>(s0: State<O>) -> (State<O>, Result<(i32, ()), Raised>) {
    let s = s0.grown(2);
    if !s0.grows(2) {
        overflowed(s, None)
    } else if s.heap.wraps_panic(s.stack.last()) {
        (s, Ok((1, ())))
    } else {
        let (t, r) = s.with_stack(seq![s.upvalues[0]] + s.stack).call(
            s.stack.len() as int,
            MULTRET as int,
        );
        match r {
            Ok(_) => (t, Ok((t.stack.len() as i32, ()))),
            Err(e) => (t, Err(e)),
        }
    }
}

/// The message handler of `safe_xpcall`: leaves a host panic alone, and hands any other error
/// to the handler of the caller, which is bound to it.
pub struct XpcallMsgh;

impl<L: Lua> CFn<L> for XpcallMsgh {
    type Value = ();

    open spec fn function(&self) -> CFunction {
        CFunction::XpcallMsgh
    }

    open spec fn accepts(&self, s: State<L::Object>) -> bool {
        &&& s.stack.len() >= 1
        &&& s.upvalues.len() >= 1
        &&& s.tells(s.stack.last(), FAILURE_KEY)
    }

    open spec fn effect(&self, s: State<L::Object>) -> (
        State<L::Object>,
        Result<(i32, ()), Raised>,
    ) {
        handled_by_upvalue(s)
    }

    fn run(self, state: &mut L) -> (r: Result<(i32, ()), Raised>) {
        match xpcall_msgh(state) {
            Ok(n) => Ok((n, ())),
            Err(e) => Err(e),
        }
    }
}

/// The message handler of `safe_xpcall`, with the error on top of the stack.
pub fn xpcall_msgh<L: Lua>(state: &mut L) -> (r: Result<i32, Raised>)
    requires
        old(state)@.wf(),
        old(state)@.stack.len() >= 1,
        old(state)@.upvalues.len() >= 1,
        old(state)@.tells(old(state)@.stack.last(), FAILURE_KEY),
    ensures
        final(state)@ == handled_by_upvalue(old(state)@).0,
        match handled_by_upvalue(old(state)@).1 {
            Ok((n, _)) => r == Ok::<i32, Raised>(n),
            Err(e) => r == Err::<i32, Raised>(e),
        },
        final(state)@.wf(),
        old(state)@.ready() ==> final(state)@.ready(),
        final(state)@.env == old(state)@.env,
        r matches Ok(n) ==> 0 <= n <= final(state)@.stack.len(),
        r matches Err(e) ==> known(e.status, old(state)@.env.version),
{
    state.checkstack_or_raise(2, None)?;
    let ghost s = state@;
    if is_panic(state, -1) {
        return Ok(1);
    }
    state.pushvalue(REGISTRY_INDEX - 1);
    insert(state, 1);
    assert(state@ =~= s.with_stack(seq![s.upvalues[0]] + s.stack));
    let nargs: i32 = state.gettop() - 1;
    state.call(nargs, MULTRET)?;
    Ok(state.gettop())
}

/// The frame of `safe_xpcall` when it calls the function: the message handler, with the one of
/// the caller bound to it, and the flag lie below the function and its arguments.
pub open spec fn xpcall_frame<O>(s: State<O>, c: u64) -> State<O> {
    s.spent().with_heap(
        with_closure(
            s.heap,
            c,
            ClosureModel { function: CFunction::XpcallMsgh, upvalues: seq![s.stack[1]] },
        ),
    ).with_stack(
        seq![Value::Closure(c), Value::Boolean(true), s.stack[0]] + s.stack.skip(2),
    )
}

/// What `safe_xpcall` does.
pub open spec fn xpcalled<L: Lua>(s0: State<L::Object>) -> (
    State<L::Object>,
    Result<i32, Raised>,
) {
    let s = s0.grown(2);
    let n = s.stack.len();
    if !s0.grows(2) {
        overflowed(s, None)
    } else if n < 2 {
        arguments_missing(s, "not enough arguments to xpcall")
    } else if !s.grant() {
        (s.push(s.stack[1]).out_of_memory(), Err(Raised { status: Status::ErrMem }))
    } else {
        let c = s.memory[0]->0;
        let (t, status) = xpcall::<L, XpcallMsgh>(
            xpcall_frame(s, c),
            XpcallMsgh,
            n - 2,
            MULTRET as int,
            1,
        );
        if status == Status::Success {
            (t, Ok((t.stack.len() - 1) as i32))
        } else {
            caught(t, seq![Value::Closure(c)], t.stack.last())
        }
    }
}

/// Where the call fails, it can be told whether the error, and what the message handler makes of
/// it, are host failures.
pub open spec fn xpcall_tells<L: Lua>(s0: State<L::Object>) -> bool {
    let s = s0.grown(2);
    let n = s.stack.len();
    s0.grows(2) && n >= 2 && s.grant() ==> {
        let frame = xpcall_frame(s, s.memory[0]->0);
        let (t, status) = xpcall::<L, XpcallMsgh>(frame, XpcallMsgh, n - 2, MULTRET as int, 1);
        &&& pcall_tells(frame)
        &&& status != Status::Success ==> t.tells(t.stack.last(), FAILURE_KEY)
    }
}

/// A variant of `xpcall` that does not allow Lua to catch host panics.
///
/// Calls the lowest value of the frame with those from the third on; the second is the message
/// handler.
pub fn safe_xpcall<L: Lua>(state: &mut L) -> (r: Result<i32, Raised>)
    requires
        old(state)@.wf(),
        old(state)@.ready() || xpcall_tells::<L>(old(state)@),
    ensures
        (final(state)@, r) == xpcalled::<L>(old(state)@),
        final(state)@.wf(),
        old(state)@.ready() ==> final(state)@.ready(),
{
    state.checkstack_or_raise(2, None)?;
    let ghost s = state@;

    let top: i32 = state.gettop();
    if top < 2 {
        return refuse(state, "not enough arguments to xpcall");
    }
    state.pushvalue(2);
    state.pushcclosure(CFunction::XpcallMsgh, 1)?;
    let ghost c = s.memory[0]->0;
    let ghost m = ClosureModel { function: CFunction::XpcallMsgh, upvalues: seq![s.stack[1]] };
    proof {
        assert(s.push(s.stack[1]).stack.skip(s.stack.len() as int) =~= seq![s.stack[1]]);
        lemma_closure_wf(s.heap, c, m);
        assert(state@.stack =~= s.stack.push(Value::Closure(c)));
    }
    state.copy(1, 2);
    replace(state, 1);
    // The flag goes below the function: the results may leave no room above them.
    state.pushboolean(true);
    insert(state, 2);
    assert(state@ =~= xpcall_frame(s, c));
    let ghost f = state@;
    assert(f.below(top - 2) =~= seq![Value::Closure(c), Value::Boolean(true)]);

    if state.xpcall(XpcallMsgh, top - 2, MULTRET, 1) == Status::Success {
        Ok(state.gettop() - 1)
    } else {
        let ghost t = state@;
        remove(state, 2);
        assert(state@.stack =~= seq![Value::Closure(c), t.stack.last()]);
        assert(state@.stack.drop_last() =~= seq![Value::Closure(c)]);
        catch(state)
    }
}

/// The main thread, from Lua 5.2 on, or `Some(None)` where the registry has lost it. Before
/// that, the running thread where it is the main one.
///
/// Uses one stack slot.
pub fn get_main_state<L: Lua>(state: &mut L) -> (r: Option<Option<u64>>)
    requires
        old(state)@.wf(),
        old(state)@.spare() >= 1,
    ensures
        final(state)@ == old(state)@,
        ({
            let s = old(state)@;
            r == match s.env.version {
                LuaVersion::Lua51 | LuaVersion::LuaJit => if s.env.main_thread {
                    Some(Some(s.env.thread))
                } else {
                    None
                },
                _ => match s.heap.get(s.heap.registry, Value::Integer(RIDX_MAINTHREAD)) {
                    Value::Thread(t) => Some(Some(t)),
                    _ => Some(None),
                },
            }
        }),
{
    match state.version() {
        LuaVersion::Lua51 | LuaVersion::LuaJit => {
            let is_main_state = state.pushthread();
            pop(state, 1);
            assert(state@ =~= old(state)@);
            if is_main_state {
                Some(Some(state.thread()))
            } else {
                None
            }
        },
        _ => {
            let _ = state.rawgeti(REGISTRY_INDEX, RIDX_MAINTHREAD);
            let main_state = state.tothread(-1);
            pop(state, 1);
            assert(state@ =~= old(state)@);
            Some(main_state)
        },
    }
}

} // verus!

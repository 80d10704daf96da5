//! What holds of the library as a whole.

use vstd::prelude::*;

use crate::api::gettable;
use crate::api::handled;
use crate::api::settable;
use crate::api::Lua;
use crate::callback::callback_run;
use crate::callback::callback_slots;
use crate::callback::carries;
use crate::callback::failure_trace;
use crate::callback::gets_to_run;
use crate::callback::holds_on;
use crate::callback::traceless;
use crate::callback::work_frame;
use crate::callback::Callback;
use crate::callback::EndingModel;
use crate::calls::handled_by_upvalue;
use crate::calls::pcalled;
use crate::calls::xpcall_frame;
use crate::calls::xpcalled;
use crate::calls::XpcallMsgh;
use crate::failure::popped;
use crate::failure::with_traceback;
use crate::failure::ErrorTraceback;
use crate::meta::finish;
use crate::meta::lookup;
use crate::meta::meta_index;
use crate::meta::meta_newindex;
use crate::meta::unknown_field;
use crate::metatable::gc_metatable;
use crate::metatable::gc_prepared;
use crate::metatable::customized;
use crate::metatable::customizes;
use crate::metatable::index_upvalues;
use crate::metatable::index_wrapped;
use crate::metatable::lemma_field_names;
use crate::metatable::metatable_requests;
use crate::metatable::newindex_upvalues;
use crate::metatable::newindex_wrapped;
use crate::metatable::with_gc;
use crate::metatable::Customize;
use crate::protect::body_frame;
use crate::protect::protected;
use crate::protect::Body;
use crate::registry::destructed_metatable;
use crate::registry::failure_metatable;
use crate::registry::metamethods;
use crate::registry::registry_requests;
use crate::registry::with_all;
use crate::registry::with_error_registry;
use crate::stack::guarded;
use crate::state::adjust;
use crate::state::grants;
use crate::state::name;
use crate::state::own;
use crate::state::rotated;
use crate::state::starved;
use crate::state::Call;
use crate::state::Heap;
use crate::state::Outcome;
use crate::state::State;
use crate::state::TableModel;
use crate::userdata::destructed;
use crate::userdata::gc_pushed;
use crate::userdata::with_userdata;
use crate::value::CFunction;
use crate::value::ErrorModel;
use crate::value::Failed;
use crate::value::FailureModel;
use crate::value::LuaVersion;
use crate::value::PanicModel;
use crate::value::PayloadModel;
use crate::value::Pointer;
use crate::value::Raised;
use crate::value::Status;
use crate::value::TypeKey;
use crate::value::Value;
use crate::value::FAILURE_KEY;
use crate::value::TEXT_KEY;

verus! {

/// A guard takes away what came on top of the recorded stack, but for the extra values: of
/// `recorded`, `more` and `kept` it leaves `recorded` and `kept`.
pub proof fn law_guard_keeps_extra(recorded: Seq<Value>, more: Seq<Value>, kept: Seq<Value>)
    ensures
        guarded(recorded + more + kept, recorded.len() as int, kept.len() as int) == recorded
            + kept,
{
    assert(guarded(recorded + more + kept, recorded.len() as int, kept.len() as int) =~= recorded
        + kept);
}

/// A guard for values that are to be removed leaves that many fewer, whatever came on top.
pub proof fn law_guard_removes(recorded: Seq<Value>, removed: Seq<Value>, more: Seq<Value>)
    ensures
        guarded(
            recorded + removed + more,
            (recorded + removed).len() as int,
            -removed.len(),
        ) == recorded,
{
    assert(guarded(
        recorded + removed + more,
        (recorded + removed).len() as int,
        -removed.len(),
    ) =~= recorded);
}

/// What `push_gc_userdata` pushed under one type, `get_gc_userdata` finds under that type, with
/// the value that was pushed, and under no other.
pub proof fn law_push_get<O>(h: Heap<O>, a: u64, p: PayloadModel<O>, key: TypeKey, other: TypeKey)
    requires
        h.wf(),
        h.free(a),
        h.registered(Pointer::GcMetatable(key)) is Table,
        key != other,
    ensures
        gc_pushed(h, a, p, key).gc_userdata(Value::Userdata(a), key) == Some(a),
        gc_pushed(h, a, p, key).userdata[a].payload == p,
        gc_pushed(h, a, p, key).gc_userdata(Value::Userdata(a), other) is None,
{
    let g = gc_pushed(h, a, p, key);
    assert(forall|q: Pointer| #[trigger] g.registered(q) == h.registered(q));
    assert(own(Pointer::GcMetatable(key)) && own(Pointer::GcMetatable(other)));
    assert(h.registered(Pointer::GcMetatable(key)) != h.registered(Pointer::GcMetatable(other)));
}

/// A userdata whose value was taken passes for no type.
pub proof fn law_taken_is_no_type<O>(h: Heap<O>, a: u64, key: TypeKey)
    requires
        h.wf(),
    ensures
        destructed(h, a).gc_userdata(Value::Userdata(a), key) is None,
{
    let g = destructed(h, a);
    assert(forall|q: Pointer| #[trigger] g.registered(q) == h.registered(q));
    assert(own(Pointer::GcMetatable(key)) && own(Pointer::DestructedMetatable));
    if h.registered(Pointer::DestructedMetatable) is Table {
        assert(h.registered(Pointer::DestructedMetatable) != h.registered(
            Pointer::GcMetatable(key),
        ));
    }
}

/// `take_userdata` gives back what `push_userdata` was given, and the stack as it was before.
pub proof fn law_push_take<O>(s: State<O>, a: u64, p: PayloadModel<O>)
    ensures
        ({
            let t = s.after(2).with_heap(with_userdata(s.heap, a, p)).push(Value::Userdata(a));
            &&& t.stack.last() == Value::Userdata(a)
            &&& t.heap.userdata[a].payload == p
            &&& t.pop(1).with_heap(destructed(t.heap, a)).stack == s.stack
        }),
{
    let t = s.after(2).with_heap(with_userdata(s.heap, a, p)).push(Value::Userdata(a));
    assert(t.pop(1).with_heap(destructed(t.heap, a)).stack =~= s.stack);
}

/// `rawset_field` sets the field that it names, which can then be read, and no other.
pub proof fn law_field_set<O>(h: Heap<O>, t: u64, k: Value, v: Value, u: u64, j: Value)
    ensures
        h.set(t, k, v).get(t, k) == v,
        u != t || j.key() != k.key() ==> h.set(t, k, v).get(u, j) == h.get(u, j),
{
}

/// Registry entries do not get in each other's way.
pub proof fn law_registered<O>(h: Heap<O>, p: Pointer, v: Value, q: Pointer)
    ensures
        h.register(p, v).registered(p) == v,
        p != q ==> h.register(p, v).registered(q) == h.registered(q),
{
}

/// The metatable that `init_gc_metatable` registers for a type is the one that
/// `get_gc_metatable` pushes for it, and no userdata carries it yet. It is as the customizing
/// step left it, or, without one, has its destructor and is closed to scripts. A type whose
/// entry that step leaves alone keeps its metatable.
pub proof fn law_type_registered<L: Lua, C: Customize<L>>(
    s: State<L::Object>,
    key: TypeKey,
    customize: Option<C>,
    other: TypeKey,
    a: u64,
)
    requires
        s.wf(),
        grants(s.memory, 8),
        customizes::<L, C>(customize, gc_prepared(s, key), s.memory[1]->0),
        customized::<L, C>(customize, gc_prepared(s, key)).1 is Ok,
    ensures
        ({
            let t = s.memory[1]->0;
            let u = customized::<L, C>(customize, gc_prepared(s, key)).0;
            let h = u.heap.register(Pointer::GcMetatable(key), Value::Table(t));
            let entry = Pointer::GcMetatable(other);
            &&& h.registered(Pointer::GcMetatable(key)) == Value::Table(t)
            &&& t != u.heap.registry ==> h.table(t) == u.heap.table(t)
            &&& customize is None ==> h.table(t) == gc_metatable(key)
            &&& other != key && u.heap.registered(entry) == s.heap.registered(entry)
                ==> h.registered(entry) == s.heap.registered(entry)
            &&& u.heap.userdata.contains_key(a) ==> h.gc_userdata(Value::Userdata(a), key) is None
        }),
{
    let t = s.memory[1]->0;
    assert(s.memory[1] is Some);
    assert(s.heap.free(t));
    assert(own(Pointer::GcMetatable(0)));
}

/// `error_traceback` leaves a host failure as it is: the stack stays the same.
pub proof fn law_traceback_keeps_failures<O>(s: State<O>)
    requires
        s.stack.len() >= 1,
        s.heap.failure(s.stack.last()) is Some,
    ensures
        with_traceback(s) == (s.grown(2), Ok::<(i32, ()), Raised>((1, ()))),
        with_traceback(s).0.stack == s.stack,
{
}

/// A host failure gets through the message handler of a protected call unchanged, whenever the
/// handler can be called.
pub proof fn law_failures_pass_the_handler<L: Lua>(s: State<L::Object>, v: Value)
    requires
        s.can_enter(1),
        s.heap.failure(v) is Some,
    ensures
        handled::<L, ErrorTraceback>(s, ErrorTraceback, Seq::empty(), v).1 == Status::ErrRun,
        handled::<L, ErrorTraceback>(s, ErrorTraceback, Seq::empty(), v).2 == v,
{
    let e = s.enter(Seq::empty(), seq![v]);
    assert(e.stack.last() == v);
    law_traceback_keeps_failures(e);
}

/// A panic that `pop_error` resumed is not resumed again: the next time the same error object
/// is popped, that is an error of its own.
pub proof fn law_panic_resumed_once<O>(s: State<O>, status: Status, again: Status, p: PanicModel)
    requires
        s.stack.len() >= 1,
        s.heap.failure(s.stack.last()) == Some(FailureModel::Panic(Some(p))),
    ensures
        popped(s, status).1 == Failed::Panic(p),
        popped(s, status).0.stack == s.stack,
        popped(popped(s, status).0, again).1 == Failed::Error(
            ErrorModel::PreviouslyResumedPanic,
        ),
        popped(popped(s, status).0, again).0.stack == s.stack.drop_last(),
{
    let h = popped(s, status).0.heap;
    assert(forall|q: Pointer| #[trigger] h.registered(q) == s.heap.registered(q));
    assert(popped(popped(s, status).0, again).0.stack =~= s.stack.drop_last());
}

/// The callback `f` gets to run in `s`, with the failure metatable in place, and leaves alone
/// what it has to. `callback_error` ensures the last of these whenever it runs `f`.
pub open spec fn works<L: Lua, F: Callback<L>>(s: State<L::Object>, f: F) -> bool {
    &&& gets_to_run(s)
    &&& s.heap.registered(Pointer::GcMetatable(FAILURE_KEY)) is Table
    &&& holds_on(work_frame(s), f.effect(work_frame(s)).0)
}

/// A failure of a callback is raised as an error object that wraps it.
proof fn lemma_carried<L: Lua, F: Callback<L>>(s: State<L::Object>, f: F)
    requires
        works::<L, F>(s, f),
    ensures
        ({
            let (t, ending) = f.effect(work_frame(s));
            let (u, r) = callback_run::<L, F>(s, f);
            !(ending is Returned) && !(ending is Failed && traceless(t)) ==> {
                &&& r == Err::<F::Value, Raised>(Raised { status: Status::ErrRun })
                &&& carries(u.heap, u.error, ending, failure_trace(t))
            }
        }),
{
    let w = work_frame(s);
    let (t, ending) = f.effect(w);
    let (u, r) = callback_run::<L, F>(s, f);
    let a = s.grown(callback_slots(s.stack.len() as int)).memory[0]->0;
    let key = Pointer::GcMetatable(FAILURE_KEY);
    assert(w.stack[0] == Value::Userdata(a));
    assert(w.heap.registered(key) == s.heap.registered(key));
    if ending is Failed && !traceless(t) {
        assert(Seq::<u8>::empty() + t.text() =~= t.text());
        assert(u.heap.registered(key) == t.heap.registered(key));
    }
    if ending is Panicked {
        assert(u.heap.registered(key) == t.heap.registered(key));
    }
}

/// A panic of a callback is raised in such a way that `pop_error` resumes it, in whatever frame
/// `c` the error arrives.
pub proof fn law_callback_panic_is_resumed<L: Lua, F: Callback<L>>(
    s: State<L::Object>,
    f: F,
    p: PanicModel,
    c: State<L::Object>,
    below: Seq<Value>,
    status: Status,
)
    requires
        works::<L, F>(s, f),
        f.effect(work_frame(s)).1 == EndingModel::<F::Value>::Panicked(p),
    ensures
        ({
            let (u, r) = callback_run::<L, F>(s, f);
            &&& r == Err::<F::Value, Raised>(Raised { status: Status::ErrRun })
            &&& popped(c.back(u, below.push(u.error)), status).1 == Failed::Panic(p)
        }),
{
    lemma_carried::<L, F>(s, f);
}

/// An error of a callback is raised in such a way that `pop_error` returns it, as the cause of
/// a callback error with the traceback, in whatever frame `c` the error arrives. Where there is
/// no memory for the traceback, the lack of memory is raised.
pub proof fn law_callback_error_is_returned<L: Lua, F: Callback<L>>(
    s: State<L::Object>,
    f: F,
    e: ErrorModel,
    c: State<L::Object>,
    below: Seq<Value>,
    status: Status,
)
    requires
        works::<L, F>(s, f),
        f.effect(work_frame(s)).1 == EndingModel::<F::Value>::Failed(e),
    ensures
        ({
            let t = f.effect(work_frame(s)).0;
            let (u, r) = callback_run::<L, F>(s, f);
            if traceless(t) {
                &&& r == Err::<F::Value, Raised>(Raised { status: Status::ErrMem })
                &&& u.error == name("not enough memory")
            } else {
                &&& r == Err::<F::Value, Raised>(Raised { status: Status::ErrRun })
                &&& popped(c.back(u, below.push(u.error)), status).1 == Failed::Error(
                    ErrorModel::CallbackError {
                        traceback: failure_trace(t),
                        cause: Box::new(e),
                    },
                )
            }
        }),
{
    let t = f.effect(work_frame(s)).0;
    if !traceless(t) {
        lemma_carried::<L, F>(s, f);
    }
}

/// `safe_pcall` does not catch a host panic: it raises the same error object again.
pub proof fn law_pcall_lets_panics_through<O>(s: State<O>, status: Status, v: Value)
    requires
        s.grows(2),
        s.stack.len() >= 1,
        s.reply().outcome == Outcome::Raises(status, v),
        s.replied().heap.wraps_panic(v),
    ensures
        pcalled(s).1 == Err::<i32, Raised>(Raised { status: Status::ErrRun }),
        pcalled(s).0.error == v,
{
}

/// `safe_pcall` hands out any other error, behind `false`.
pub proof fn law_pcall_catches_errors<O>(s: State<O>, status: Status, v: Value)
    requires
        s.grows(2),
        s.stack.len() >= 1,
        s.reply().outcome == Outcome::Raises(status, v),
        !s.replied().heap.wraps_panic(v),
    ensures
        pcalled(s).1 == Ok::<i32, Raised>(2),
        pcalled(s).0.stack == seq![Value::Boolean(false), v],
        pcalled(s).0.heap == s.replied().heap,
        pcalled(s).0.error == s.error,
{
    assert(pcalled(s).0.stack =~= seq![Value::Boolean(false), v]);
}

/// `safe_pcall` calls the lowest value of the frame with all those above it, once.
pub proof fn law_pcall_calls_the_function<O>(s: State<O>)
    requires
        s.grows(2),
        s.stack.len() >= 1,
    ensures
        pcalled(s).0.calls == s.calls.push(Call::Function(s.stack[0], s.stack.skip(1))),
{
}

/// `safe_xpcall` calls the lowest value of the frame with those from the third on, once; and
/// then the second value with the error, where the call ends with a runtime error that is not a
/// host panic and there is memory to call the message handler.
pub proof fn law_xpcall_calls_the_function<L: Lua>(s: State<L::Object>)
    requires
        s.grows(2),
        s.stack.len() >= 2,
        s.grown(2).grant(),
    ensures
        ({
            let first = s.calls.push(Call::Function(s.stack[0], s.stack.skip(2)));
            let entered = xpcall_frame(s.grown(2), s.grown(2).memory[0]->0).can_enter(1);
            xpcalled::<L>(s).0.calls == match s.reply().outcome {
                Outcome::Raises(Status::ErrRun, v) => if entered
                    && !s.replied().heap.wraps_panic(v) {
                    first.push(Call::Function(s.stack[1], seq![v]))
                } else {
                    first
                },
                _ => first,
            }
        }),
{
    let g = s.grown(2);
    let c = g.memory[0]->0;
    let frame = xpcall_frame(g, c);
    let n = s.stack.len();
    assert(frame.callee(n - 2) == s.stack[0]);
    assert(frame.args(n - 2) =~= s.stack.skip(2));
    let t = frame.asked(frame.requested(n - 2));
    assert(forall|q: Pointer| #[trigger] t.heap.registered(q) == s.replied().heap.registered(q));
    match s.reply().outcome {
        Outcome::Raises(Status::ErrRun, v) => {
            assert(t.heap.wraps_panic(v) == s.replied().heap.wraps_panic(v));
            let ups = frame.heap.upvalues(frame.at(1));
            assert(ups == seq![s.stack[1]]);
            let e = t.enter(ups, seq![v]);
            assert(e.stack.last() == v);
            let called = e.with_stack(seq![s.stack[1]] + e.stack);
            assert(called.callee(1) == s.stack[1]);
            assert(called.args(1) =~= seq![v]);
        },
        _ => {},
    }
}

/// The message handler of `safe_xpcall` does not show a host panic to the handler of the caller:
/// it calls nothing, and hands the panic back.
pub proof fn law_xpcall_handler_skips_panics<O>(s: State<O>)
    requires
        s.stack.len() >= 1,
        s.grows(2),
        s.heap.wraps_panic(s.stack.last()),
    ensures
        handled_by_upvalue(s).1 == Ok::<(i32, ()), Raised>((1, ())),
        handled_by_upvalue(s).0.stack == s.stack,
        handled_by_upvalue(s).0.heap == s.heap,
        handled_by_upvalue(s).0.replies == s.replies,
{
}

/// `safe_xpcall` does not catch a host panic: it raises the same error object again, unless its
/// message handler should be called and there is no memory for that.
pub proof fn law_xpcall_lets_panics_through<L: Lua>(s: State<L::Object>, status: Status, v: Value)
    requires
        s.stack.len() >= 2,
        s.grows(2),
        s.grown(2).grant(),
        s.reply().outcome == Outcome::Raises(status, v),
        s.replied().heap.wraps_panic(v),
        status != Status::Success,
        status == Status::ErrRun ==> xpcall_frame(
            s.grown(2),
            s.grown(2).memory[0]->0,
        ).can_enter(1),
    ensures
        xpcalled::<L>(s).1 == Err::<i32, Raised>(Raised { status: Status::ErrRun }),
        xpcalled::<L>(s).0.error == v,
{
    let g = s.grown(2);
    let c = g.memory[0]->0;
    let frame = xpcall_frame(g, c);
    let t = frame.replied();
    assert(forall|q: Pointer| #[trigger] t.heap.registered(q) == s.replied().heap.registered(q));
    assert(t.heap.wraps_panic(v));
    if status == Status::ErrRun {
        let e = t.enter(frame.heap.upvalues(frame.at(1)), seq![v]);
        assert(e.stack.last() == v);
        law_xpcall_handler_skips_panics(e);
        assert(handled::<L, XpcallMsgh>(t, XpcallMsgh, frame.heap.upvalues(frame.at(1)), v).2 == v);
    }
}

/// A protected call leaves what lies below its arguments. Where it fails with an error, that is
/// all it leaves.
pub proof fn law_protected_call_keeps_the_rest<L: Lua, F: Body<L>>(
    s: State<L::Object>,
    nargs: int,
    nresults: int,
    f: F,
)
    requires
        0 <= nargs <= s.stack.len(),
    ensures
        ({
            let below = s.stack.take(s.stack.len() - nargs);
            let (t, r) = protected::<L, F>(s, nargs, nresults, f);
            &&& below.is_prefix_of(t.stack)
            &&& r matches Err(Failed::Error(_)) ==> t.stack == below
            &&& t.upvalues == s.upvalues
            &&& t.error == s.error
            &&& t.room >= s.room
        }),
{
    let below = s.stack.take(s.stack.len() - nargs);
    let (t, r) = protected::<L, F>(s, nargs, nresults, f);
    assert(forall|v: Value| (#[trigger] below.push(v)).take(below.len() as int) =~= below);
    assert(forall|x: Seq<Value>| (#[trigger] (below + x)).take(below.len() as int) =~= below);
    if r is Err {
        assert(t.stack.take(below.len() as int) =~= below);
        assert(r matches Err(Failed::Error(_)) ==> t.stack =~= below);
    }
}

/// A host failure that is raised in a protected call comes out of it as what it wraps: the panic
/// to resume, or the error; whenever the message handler can be called.
pub proof fn law_failures_come_out_of_protected_calls<L: Lua, F: Body<L>>(
    s: State<L::Object>,
    nargs: int,
    nresults: int,
    f: F,
    t: State<L::Object>,
)
    requires
        s.can_enter(nargs + 1),
        0 <= nargs <= s.stack.len(),
        f.effect(body_frame(s, nargs)) == (
            t,
            Err::<F::Value, Raised>(Raised { status: Status::ErrRun }),
        ),
        t.can_enter(1),
    ensures
        ({
            let r = protected::<L, F>(s, nargs, nresults, f).1;
            &&& t.heap.failure(t.error) matches Some(FailureModel::Panic(Some(p))) ==> r == Err::<
                F::Value,
                Failed,
            >(Failed::Panic(p))
            &&& t.heap.failure(t.error) matches Some(FailureModel::Error(e)) ==> r == Err::<
                F::Value,
                Failed,
            >(Failed::Error(e))
        }),
{
    if t.heap.failure(t.error) is Some {
        let e = t.enter(Seq::empty(), seq![t.error]);
        assert(e.stack.last() == t.error);
        law_failures_pass_the_handler::<L>(t, t.error);
        law_traceback_keeps_failures(e);
        let u = handled::<L, ErrorTraceback>(t, ErrorTraceback, Seq::empty(), t.error).0;
        assert(u.heap == t.heap);
    }
}

/// A table that was given `v` under many names has it under each of them.
pub proof fn lemma_with_all(t: TableModel, names: Seq<Seq<char>>, v: Value, i: int)
    requires
        0 <= i < names.len(),
        !(v is Nil),
    ensures
        with_all(t, names, v).get(Value::Str(vstd::utf8::encode_utf8(names[i]))) == v,
    decreases names.len(),
{
    if i < names.len() - 1 {
        lemma_with_all(t, names.drop_last(), v, i);
    }
}

/// Every metamethod of a destructed userdata raises an error.
pub proof fn law_destructed_metamethods(version: LuaVersion, i: int)
    requires
        0 <= i < metamethods(version).len(),
    ensures
        destructed_metatable(version).get(
            Value::Str(vstd::utf8::encode_utf8(metamethods(version)[i])),
        ) == Value::CFunction(CFunction::DestructedError),
{
    lemma_with_all(
        TableModel::empty(),
        metamethods(version),
        Value::CFunction(CFunction::DestructedError),
        i,
    );
}

/// A table that was given a value under many names has what it had under any other key.
pub proof fn lemma_without(t: TableModel, names: Seq<Seq<char>>, v: Value, k: Value)
    requires
        forall|i: int|
            0 <= i < names.len() ==> k.key() != Value::Str(
                vstd::utf8::encode_utf8(#[trigger] names[i]),
            ),
    ensures
        with_all(t, names, v).get(k) == t.get(k),
    decreases names.len(),
{
    if names.len() > 0 {
        let rest = names.drop_last();
        assert forall|i: int| 0 <= i < rest.len() implies k.key() != Value::Str(
            vstd::utf8::encode_utf8(#[trigger] rest[i]),
        ) by {
            assert(rest[i] == names[i]);
        }
        lemma_without(t, rest, v, k);
        assert(names.last() == names[names.len() - 1]);
    }
}

/// None of the metamethods of destructed userdata is the finalizer.
proof fn lemma_no_finalizer(version: LuaVersion, i: int)
    requires
        0 <= i < metamethods(version).len(),
    ensures
        metamethods(version)[i] != "__gc"@,
{
    reveal_strlit("__gc");
    reveal_strlit("__add");
    reveal_strlit("__sub");
    reveal_strlit("__mul");
    reveal_strlit("__div");
    reveal_strlit("__mod");
    reveal_strlit("__pow");
    reveal_strlit("__unm");
    reveal_strlit("__idiv");
    reveal_strlit("__band");
    reveal_strlit("__bor");
    reveal_strlit("__bxor");
    reveal_strlit("__bnot");
    reveal_strlit("__shl");
    reveal_strlit("__shr");
    reveal_strlit("__concat");
    reveal_strlit("__len");
    reveal_strlit("__eq");
    reveal_strlit("__lt");
    reveal_strlit("__le");
    reveal_strlit("__index");
    reveal_strlit("__newindex");
    reveal_strlit("__call");
    reveal_strlit("__tostring");
    reveal_strlit("__pairs");
    reveal_strlit("__ipairs");
    reveal_strlit("__close");
    assert("__gc"@[2] == 'g');
    assert("__eq"@[2] == 'e' && "__lt"@[2] == 'l' && "__le"@[2] == 'l');
    let m = metamethods(version)[i];
    assert(m.len() != 4 || m[2] == 'e' || m[2] == 'l');
}

/// A destructed userdata has no finalizer: it is not dropped again.
pub proof fn law_destructed_is_not_finalized(version: LuaVersion)
    ensures
        destructed_metatable(version).get(name("__gc")) is Nil,
{
    let names = metamethods(version);
    vstd::utf8::encode_utf8_decode_utf8("__gc"@);
    assert forall|i: int| 0 <= i < names.len() implies name("__gc").key() != Value::Str(
        vstd::utf8::encode_utf8(#[trigger] names[i]),
    ) by {
        vstd::utf8::encode_utf8_decode_utf8(names[i]);
        lemma_no_finalizer(version, i);
    }
    lemma_without(
        TableModel::empty(),
        names,
        Value::CFunction(CFunction::DestructedError),
        name("__gc"),
    );
}

/// `init_error_registry` puts everything in its place: the metatables of failures, of
/// destructed userdata and of texts, all different, and an empty error print buffer.
pub proof fn law_error_registry<O>(s: State<O>)
    requires
        s.wf(),
        grants(s.memory, registry_requests(s.env.version)),
    ensures
        ({
            let h = with_error_registry(s.heap, s.memory, s.env.version);
            let f = h.registered(Pointer::GcMetatable(FAILURE_KEY));
            let d = h.registered(Pointer::DestructedMetatable);
            let x = h.registered(Pointer::GcMetatable(TEXT_KEY));
            &&& f is Table && h.table(f->Table_0) == failure_metatable()
            &&& d is Table && h.table(d->Table_0) == destructed_metatable(s.env.version)
            &&& x is Table && h.table(x->Table_0) == gc_metatable(TEXT_KEY)
            &&& f != d && f != x && d != x
            &&& h.buffer() matches Some((_, text)) && text.len() == 0
            &&& h.gc_userdata(h.registered(Pointer::ErrorPrintBuffer), TEXT_KEY) is Some
            &&& h.cached.contains(FAILURE_KEY) && h.cached.contains(TEXT_KEY)
        }),
{
    let n = 3 * metamethods(s.env.version).len();
    let m = s.memory;
    let f = m[1];
    let d = m[14];
    let x = m[(18 + n) as int];
    let b = m[(28 + n) as int];
    assert(f is Some && d is Some && x is Some && b is Some);
    assert(s.heap.free(f->0) && s.heap.free(d->0) && s.heap.free(x->0) && s.heap.free(b->0));
    assert(f->0 != d->0 && f->0 != x->0 && d->0 != x->0);
}

/// A field that a getter answers for is not looked up any further: the getter is called with
/// the userdata.
pub proof fn law_getter_comes_first<O>(s: State<O>)
    requires
        s.stack.len() >= 2,
        s.upvalues.len() == 3,
        s.grows(2),
        !(lookup(s, s.upvalues[1], s.stack.last()) is Nil),
    ensures
        ({
            let n = s.stack.len();
            let getter = lookup(s, s.upvalues[1], s.stack.last());
            let frame = s.grown(2).with_stack(s.stack.drop_last().insert(n - 2, getter));
            meta_index(s) == finish(frame.call(1, 1), 1)
        }),
{
    let n = s.stack.len();
    let getter = lookup(s, s.upvalues[1], s.stack.last());
    assert(s.stack.drop_last().insert(n - 2, getter) =~= s.stack.take(n - 2).push(getter).push(
        s.stack[n - 2],
    ));
}

/// A field that no getter but a method answers for does not reach the old `__index`: the method
/// itself is the answer.
pub proof fn law_method_comes_second<O>(s: State<O>)
    requires
        s.stack.len() >= 2,
        s.upvalues.len() == 3,
        s.grows(2),
        lookup(s, s.upvalues[1], s.stack.last()) is Nil,
        !(lookup(s, s.upvalues[2], s.stack.last()) is Nil),
    ensures
        meta_index(s).1 == Ok::<i32, Raised>(1),
        meta_index(s).0.stack.last() == lookup(s, s.upvalues[2], s.stack.last()),
        meta_index(s).0.heap == s.heap,
        meta_index(s).0.replies == s.replies,
{
}

/// A field that neither a getter nor a method answers for goes to the old `__index`: a table is
/// indexed, a function is called with the userdata and the key, and without either the access is
/// an error.
pub proof fn law_old_index_comes_last<O>(s: State<O>)
    requires
        s.stack.len() >= 2,
        s.upvalues.len() == 3,
        s.grows(2),
        lookup(s, s.upvalues[1], s.stack.last()) is Nil,
        lookup(s, s.upvalues[2], s.stack.last()) is Nil,
    ensures
        ({
            let n = s.stack.len();
            let g = s.grown(2);
            let old = s.upvalues[0];
            meta_index(s) == match old {
                Value::Nil => unknown_field(g, -1, "attempt to get an unknown field '"@),
                Value::Table(t) => finish(
                    gettable(g.with_stack(s.stack.insert(n - 1, old)), t),
                    1,
                ),
                _ => finish(g.with_stack(s.stack.insert(n - 2, old)).call(2, 1), 1),
            }
        }),
{
    let n = s.stack.len();
    let old = s.upvalues[0];
    let rest = s.stack.take(n - 2);
    let obj = s.stack[n - 2];
    let key = s.stack[n - 1];
    assert(s.stack.insert(n - 1, old) =~= rest.push(obj).push(old).push(key));
    assert(s.stack.insert(n - 2, old) =~= rest.push(old).push(obj).push(key));
}

/// A field that no setter answers for goes to the old `__newindex`: a table is assigned to, a
/// function is called with the userdata, the key and the value, and without either the
/// assignment is an error.
pub proof fn law_old_newindex_comes_last<O>(s: State<O>)
    requires
        s.stack.len() >= 3,
        s.upvalues.len() == 2,
        s.grows(2),
        lookup(s, s.upvalues[1], s.stack[s.stack.len() - 2]) is Nil,
    ensures
        ({
            let n = s.stack.len();
            let g = s.grown(2);
            let old = s.upvalues[0];
            meta_newindex(s) == match old {
                Value::Nil => unknown_field(g, -2, "attempt to set an unknown field '"@),
                Value::Table(t) => finish(
                    settable(g.with_stack(s.stack.insert(n - 2, old)), t),
                    0,
                ),
                _ => finish(g.with_stack(s.stack.insert(n - 3, old)).call(3, 0), 0),
            }
        }),
{
    let n = s.stack.len();
    let old = s.upvalues[0];
    let rest = s.stack.take(n - 3);
    let obj = s.stack[n - 3];
    let key = s.stack[n - 2];
    let value = s.stack[n - 1];
    assert(s.stack.insert(n - 2, old) =~= rest.push(obj).push(old).push(key).push(value));
    assert(s.stack.insert(n - 3, old) =~= rest.push(old).push(obj).push(key).push(value));
}

/// A field that a setter answers for is not looked up any further: the setter is called with
/// the userdata and the value.
pub proof fn law_setter_comes_first<O>(s: State<O>)
    requires
        s.stack.len() >= 3,
        s.upvalues.len() == 2,
        s.grows(2),
        !(lookup(s, s.upvalues[1], s.stack[s.stack.len() - 2]) is Nil),
    ensures
        ({
            let n = s.stack.len();
            let setter = lookup(s, s.upvalues[1], s.stack[n - 2]);
            let frame = s.grown(2).with_stack(s.stack.remove(n - 2).insert(n - 3, setter));
            meta_newindex(s) == finish(frame.call(2, 0), 0)
        }),
{
    let n = s.stack.len();
    let setter = lookup(s, s.upvalues[1], s.stack[n - 2]);
    assert(s.stack.remove(n - 2).insert(n - 3, setter) =~= s.stack.take(n - 3).push(setter).push(
        s.stack[n - 3],
    ).push(s.stack[n - 1]));
}

/// A userdata metatable ends up with the destructor of its type and closed to scripts. With
/// getters or methods, its `__index` is the one of the library, bound to the one that was there
/// before, the getters and the methods, and else it is the one that was there before. The same
/// goes for `__newindex` and the setters.
pub proof fn law_userdata_metatable<O>(
    s: State<O>,
    t: u64,
    getters: Option<i32>,
    setters: Option<i32>,
    methods: Option<i32>,
    key: TypeKey,
)
    requires
        s.wf(),
        grants(s.memory, metatable_requests(getters, setters, methods)),
    ensures
        ({
            let h = with_gc(
                newindex_wrapped(index_wrapped(s, t, getters, methods), t, setters),
                t,
                key,
            ).heap;
            let index = h.get(t, name("__index"));
            let newindex = h.get(t, name("__newindex"));
            &&& h.get(t, name("__gc")) == Value::CFunction(CFunction::Destructor(key))
            &&& h.get(t, name("__metatable")) == Value::Boolean(false)
            &&& if getters is Some || methods is Some {
                &&& h.runs(index, CFunction::MetaIndex)
                &&& h.upvalues(index) == index_upvalues(s, t, getters, methods)
            } else {
                index == s.heap.get(t, name("__index"))
            }
            &&& if setters is Some {
                &&& h.runs(newindex, CFunction::MetaNewindex)
                &&& h.upvalues(newindex) == newindex_upvalues(s, t, setters->0)
            } else {
                newindex == s.heap.get(t, name("__newindex"))
            }
        }),
{
    lemma_field_names();
    let m = s.memory;
    if (getters is Some || methods is Some) && setters is Some {
        assert(index_wrapped(s, t, getters, methods).memory[3] == m[10]);
        assert(m[3] is Some && m[10] is Some);
    }
}

/// A stack grows as far as asked where it has the room, or where there is memory and the limit is
/// not reached. Growing changes nothing but the room, and takes at most one request.
pub proof fn law_stack_growth<O>(s: State<O>, n: int)
    requires
        s.stack.len() <= s.room,
        n >= 0,
    ensures
        s.grows(n) <==> s.stack.len() + n <= s.room || s.stack.len() + n <= 1000000
            && s.memory.len() > 0 && s.memory[0] is Some,
        s.grows(n) ==> s.grown(n).room >= s.stack.len() + n,
        s.grown(n).room >= s.room,
        s.grown(n).stack == s.stack && s.grown(n).heap == s.heap && s.grown(n).error == s.error,
        s.grown(n).upvalues == s.upvalues && s.grown(n).calls == s.calls,
        s.grown(n).replies == s.replies && s.grown(n).texts == s.texts,
        s.stack.len() + n <= s.room ==> s.grown(n) == s,
        s.grown(n).memory == s.memory || s.grown(n).memory == s.memory.drop_first(),
{
}

/// Where the first requests for memory are granted, they are all that is used up of the answers;
/// where one is refused, the answers are used up to the first refusal.
pub proof fn law_starvation(granted: Seq<u64>, rest: Seq<Option<u64>>)
    ensures
        ({
            let m = granted.map_values(|a: u64| Some(a));
            &&& starved(m + seq![None::<u64>] + rest) == rest
            &&& starved(m) == Seq::<Option<u64>>::empty()
        }),
    decreases granted.len(),
{
    let m = granted.map_values(|a: u64| Some(a));
    let all = m + seq![None::<u64>] + rest;
    if granted.len() == 0 {
        assert(m =~= Seq::empty());
        assert(all.drop_first() =~= rest);
    } else {
        let d = granted.drop_first();
        law_starvation(d, rest);
        let e = d.map_values(|a: u64| Some(a));
        assert(m.drop_first() =~= e);
        assert(all.drop_first() =~= e + seq![None::<u64>] + rest);
    }
}

/// Values are cut or filled up with nil to a number, or kept whole.
pub proof fn law_adjusted(vs: Seq<Value>, n: int, i: int)
    requires
        n >= 0,
        0 <= i < n,
    ensures
        adjust(vs, -1) == vs,
        adjust(vs, n).len() == n,
        i < vs.len() ==> adjust(vs, n)[i] == vs[i],
        i >= vs.len() ==> adjust(vs, n)[i] is Nil,
{
}

/// Rotation moves the topmost values below those that lie under them.
pub proof fn law_rotated(below: Seq<Value>, a: Seq<Value>, b: Seq<Value>)
    ensures
        rotated(below + a + b, below.len() as int, b.len() as int) == below + b + a,
        a.len() > 0 ==> rotated(below + a + b, below.len() as int, -a.len()) == below + b + a,
{
    assert(rotated(below + a + b, below.len() as int, b.len() as int) =~= below + b + a);
    if a.len() > 0 {
        assert(rotated(below + a + b, below.len() as int, -a.len()) =~= below + b + a);
    }
}

} // verus!

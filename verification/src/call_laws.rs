//! What holds of calls: protected calls, callbacks, `pcall` and `xpcall`.

use vstd::prelude::*;

use crate::api::handled;
use crate::api::Lua;
use crate::callback::callback_run;
use crate::callback::failure_trace;
use crate::callback::gets_to_run;
use crate::callback::traceless;
use crate::callback::work_frame;
use crate::callback::Callback;
use crate::calls::handled_by_upvalue;
use crate::calls::pcalled;
use crate::calls::xpcall_frame;
use crate::calls::xpcalled;
use crate::calls::XpcallMsgh;
use crate::failure::with_traceback;
use crate::failure::ErrorTraceback;
use crate::meta::meta_index;
use crate::meta::meta_newindex;
use crate::protect::body_frame;
use crate::protect::protected;
use crate::protect::Body;
use crate::state::c_string;
use crate::state::Call;
use crate::state::Outcome;
use crate::state::State;
use crate::text::ends;
use crate::text::text_of;
use crate::text_laws::law_text_of_written;
use crate::value::ErrorModel;
use crate::value::Failed;
use crate::value::Pointer;
use crate::value::Raised;
use crate::value::Status;
use crate::value::Value;
use crate::value::FAILURE_KEY;

verus! {

/// `safe_pcall` hands out all results of the function, behind `true`.
pub proof fn law_pcall_hands_out_all_results<O>(s: State<O>, vs: Seq<Value>)
    requires
        s.grows(2),
        s.stack.len() >= 1,
        s.reply().outcome == Outcome::Returns(vs),
        1 + vs.len() <= 1000000,
    ensures
        pcalled(s).1 == Ok::<i32, Raised>((1 + vs.len()) as i32),
        pcalled(s).0.stack == seq![Value::Boolean(true)] + vs,
        pcalled(s).0.heap == s.replied().heap,
        pcalled(s).0.error == s.error,
        pcalled(s).0.upvalues == s.upvalues,
{
}

/// More results than the stack can hold are a lack of memory, which `safe_pcall` hands out like
/// any other error.
pub proof fn law_pcall_of_too_many_results<O>(s: State<O>, vs: Seq<Value>)
    requires
        s.grows(2),
        s.stack.len() >= 1,
        s.reply().outcome == Outcome::Returns(vs),
        1 + vs.len() > 1000000,
    ensures
        pcalled(s).1 == Ok::<i32, Raised>(2),
        pcalled(s).0.stack == seq![
            Value::Boolean(false),
            Value::Str(vstd::utf8::encode_utf8("not enough memory"@)),
        ],
{
    assert(pcalled(s).0.stack =~= seq![
        Value::Boolean(false),
        Value::Str(vstd::utf8::encode_utf8("not enough memory"@)),
    ]);
}

/// Without a function to call, `safe_pcall` calls nothing and raises an error that says so.
pub proof fn law_pcall_needs_a_function<O>(s: State<O>)
    requires
        s.grows(2),
        s.stack.len() == 0,
        s.grown(2).grant(),
    ensures
        pcalled(s).1 == Err::<i32, Raised>(Raised { status: Status::ErrRun }),
        pcalled(s).0.error == Value::Str(
            vstd::utf8::encode_utf8("not enough arguments to pcall"@),
        ),
        pcalled(s).0.calls == s.calls,
        pcalled(s).0.heap == s.heap,
{
}

/// Without the stack space they need, `safe_pcall` and `safe_xpcall` call nothing and raise a
/// stack overflow.
pub proof fn law_no_space_to_call<L: Lua>(s: State<L::Object>)
    requires
        !s.grows(2),
        s.grown(2).grant(),
    ensures
        ({
            let e = Value::Str(s.text() + vstd::utf8::encode_utf8("stack overflow"@));
            &&& pcalled(s).1 == Err::<i32, Raised>(Raised { status: Status::ErrRun })
            &&& pcalled(s).0.error == e && pcalled(s).0.calls == s.calls
            &&& xpcalled::<L>(s).1 == Err::<i32, Raised>(Raised { status: Status::ErrRun })
            &&& xpcalled::<L>(s).0.error == e && xpcalled::<L>(s).0.calls == s.calls
        }),
{
}

/// Without a function and a handler, `safe_xpcall` calls nothing and raises an error that says
/// so.
pub proof fn law_xpcall_needs_a_function_and_a_handler<L: Lua>(s: State<L::Object>)
    requires
        s.grows(2),
        s.stack.len() < 2,
        s.grown(2).grant(),
    ensures
        xpcalled::<L>(s).1 == Err::<i32, Raised>(Raised { status: Status::ErrRun }),
        xpcalled::<L>(s).0.error == Value::Str(
            vstd::utf8::encode_utf8("not enough arguments to xpcall"@),
        ),
        xpcalled::<L>(s).0.calls == s.calls,
        xpcalled::<L>(s).0.heap == s.heap,
{
}

/// `safe_xpcall` hands out all results of the function, behind `true`.
pub proof fn law_xpcall_hands_out_all_results<L: Lua>(s: State<L::Object>, vs: Seq<Value>)
    requires
        s.grows(2),
        s.stack.len() >= 2,
        s.grown(2).grant(),
        s.reply().outcome == Outcome::Returns(vs),
        2 + vs.len() <= 1000000,
    ensures
        xpcalled::<L>(s).1 == Ok::<i32, Raised>((1 + vs.len()) as i32),
        xpcalled::<L>(s).0.stack.skip(1) == seq![Value::Boolean(true)] + vs,
{
    let g = s.grown(2);
    let frame = xpcall_frame(g, g.memory[0]->0);
    let n = s.stack.len();
    assert(frame.below(n - 2) =~= seq![
        Value::Closure(g.memory[0]->0),
        Value::Boolean(true),
    ]);
    assert(xpcalled::<L>(s).0.stack.skip(1) =~= seq![Value::Boolean(true)] + vs);
}

/// An error that the message handler does not see, because it is none that is shown to it, is
/// handed out as it is, behind `false`.
pub proof fn law_xpcall_hands_out_other_errors<L: Lua>(
    s: State<L::Object>,
    status: Status,
    v: Value,
)
    requires
        s.grows(2),
        s.stack.len() >= 2,
        s.grown(2).grant(),
        s.reply().outcome == Outcome::Raises(status, v),
        status != Status::ErrRun && status != Status::Success,
        !s.replied().heap.wraps_panic(v),
    ensures
        xpcalled::<L>(s).1 == Ok::<i32, Raised>(2),
        xpcalled::<L>(s).0.stack.skip(1) == seq![Value::Boolean(false), v],
{
    let g = s.grown(2);
    let frame = xpcall_frame(g, g.memory[0]->0);
    let t = frame.replied();
    assert(forall|q: Pointer| #[trigger] t.heap.registered(q) == s.replied().heap.registered(q));
    assert(t.heap.wraps_panic(v) == s.replied().heap.wraps_panic(v));
    assert(xpcalled::<L>(s).0.stack.skip(1) =~= seq![Value::Boolean(false), v]);
}

/// A runtime error is handed out as what the handler of the caller makes of it, behind `false`:
/// the first of its results, or nil without any.
pub proof fn law_xpcall_hands_out_handled_errors<L: Lua>(
    s: State<L::Object>,
    v: Value,
    ws: Seq<Value>,
)
    requires
        s.grows(2),
        s.stack.len() >= 2,
        s.grown(2).grant(),
        s.reply().outcome == Outcome::Raises(Status::ErrRun, v),
        !s.replied().heap.wraps_panic(v),
        xpcall_frame(s.grown(2), s.grown(2).memory[0]->0).can_enter(1),
        s.replied().reply().outcome == Outcome::Returns(ws),
        ws.len() <= 1000000,
        ({
            let w = if ws.len() > 0 { ws[0] } else { Value::Nil };
            !s.replied().replied().heap.wraps_panic(w)
        }),
    ensures
        xpcalled::<L>(s).1 == Ok::<i32, Raised>(2),
        xpcalled::<L>(s).0.stack.skip(1) == seq![
            Value::Boolean(false),
            if ws.len() > 0 {
                ws[0]
            } else {
                Value::Nil
            },
        ],
{
    let g = s.grown(2);
    let c = g.memory[0]->0;
    let frame = xpcall_frame(g, c);
    let n = s.stack.len();
    let t = frame.asked(frame.requested(n - 2));
    assert(forall|q: Pointer| #[trigger] t.heap.registered(q) == s.replied().heap.registered(q));
    assert(t.heap.wraps_panic(v) == s.replied().heap.wraps_panic(v));
    let ups = frame.heap.upvalues(frame.at(1));
    let e = t.enter(ups, seq![v]);
    assert(e.stack.last() == v);
    let called = e.with_stack(seq![e.upvalues[0]] + e.stack);
    assert(called.below(1) =~= Seq::empty());
    assert(Seq::<Value>::empty() + ws =~= ws);
    let w = if ws.len() > 0 { ws[0] } else { Value::Nil };
    let u = handled_by_upvalue(e).0;
    assert(u.stack =~= ws);
    assert(handled::<L, XpcallMsgh>(t, XpcallMsgh, ups, v).2 == w);
    assert(forall|q: Pointer| #[trigger]
        u.heap.registered(q) == s.replied().replied().heap.registered(q));
    assert(u.heap.wraps_panic(w) == s.replied().replied().heap.wraps_panic(w));
    assert(xpcalled::<L>(s).0.stack.skip(1) =~= seq![Value::Boolean(false), w]);
}

/// The message handler of `safe_xpcall` calls the handler that is bound to it with the error,
/// and hands out all its results, or its error.
pub proof fn law_message_handler_calls_the_bound_one<O>(s: State<O>)
    requires
        s.stack.len() >= 1,
        s.upvalues.len() >= 1,
        s.grows(2),
        !s.heap.wraps_panic(s.stack.last()),
    ensures
        handled_by_upvalue(s).0.calls == s.calls.push(Call::Function(s.upvalues[0], s.stack)),
        handled_by_upvalue(s).0.heap == s.replied().heap,
        match s.reply().outcome {
            Outcome::Returns(vs) => vs.len() <= 1000000 ==> {
                &&& handled_by_upvalue(s).1 == Ok::<(i32, ()), Raised>((vs.len() as i32, ()))
                &&& handled_by_upvalue(s).0.stack == vs
            },
            Outcome::Raises(status, v) => {
                &&& handled_by_upvalue(s).1 == Err::<(i32, ()), Raised>(Raised { status })
                &&& handled_by_upvalue(s).0.error == v
            },
        },
{
    let c = s.grown(2).with_stack(seq![s.upvalues[0]] + s.stack);
    let n = s.stack.len() as int;
    assert(c.below(n) =~= Seq::empty());
    assert(c.args(n) =~= s.stack);
    match s.reply().outcome {
        Outcome::Returns(vs) => {
            assert(Seq::<Value>::empty() + vs =~= vs);
        },
        _ => {},
    }
}

/// A callback runs on its arguments, above one more value: a new userdata that holds nothing and
/// has no metatable. Nothing else changes.
pub proof fn law_callback_sees_its_arguments<O>(s: State<O>)
    requires
        s.wf(),
        gets_to_run(s),
    ensures
        ({
            let w = work_frame(s);
            &&& w.stack.skip(1) == s.stack
            &&& w.stack.len() == s.stack.len() + 1
            &&& w.stack[0] matches Value::Userdata(a) && {
                &&& s.heap.free(a)
                &&& w.heap.userdata.contains_key(a)
                &&& w.heap.userdata[a].payload is Vacant
                &&& w.heap.userdata[a].metatable is None
                &&& forall|b: u64| b != a && #[trigger] s.heap.userdata.contains_key(b)
                    ==> w.heap.userdata.contains_key(b) && w.heap.userdata[b]
                    == s.heap.userdata[b]
            }
            &&& w.heap.tables == s.heap.tables
            &&& w.heap.closures == s.heap.closures
            &&& w.upvalues == s.upvalues && w.calls == s.calls && w.replies == s.replies
        }),
{
    let w = work_frame(s);
    assert(w.stack.skip(1) =~= s.stack);
}

/// A callback gets to run if and only if there are free slots for that value and for one more,
/// where two arguments take the place of the latter, and memory for the userdata.
pub proof fn law_when_a_callback_runs<O>(s: State<O>)
    ensures
        s.stack.len() == 0 ==> (gets_to_run(s) <==> s.grows(2) && s.grown(2).grant()),
        s.stack.len() >= 1 ==> (gets_to_run(s) <==> s.grows(1) && s.grown(1).grant()),
{
}

/// Where a callback returns, `callback_error` returns its value, and leaves on the stack what
/// the callback left above the lowest slot, in the same order, however many arguments there
/// were.
pub proof fn law_callback_results_stay<L: Lua, F: Callback<L>>(s: State<L::Object>, f: F)
    requires
        gets_to_run(s),
        f.effect(work_frame(s)).1 is Returned,
        f.effect(work_frame(s)).0.stack.len() >= 1,
    ensures
        ({
            let (t, ending) = f.effect(work_frame(s));
            let (u, r) = callback_run::<L, F>(s, f);
            &&& r == Ok::<F::Value, Raised>(ending->Returned_0)
            &&& u == (State { stack: t.stack.skip(1), ..t })
        }),
{
    let t = f.effect(work_frame(s)).0;
    assert(t.stack.remove(0) =~= t.stack.skip(1));
}

/// A callback that does not get to run leaves the arguments alone: there is a stack overflow
/// that says what it is about, or a lack of memory.
pub proof fn law_callback_that_does_not_run<L: Lua, F: Callback<L>>(s: State<L::Object>, f: F)
    requires
        !gets_to_run(s),
    ensures
        ({
            let (u, r) = callback_run::<L, F>(s, f);
            let k: int = if s.stack.len() == 0 { 2 } else { 1 };
            let g = s.grown(k);
            &&& u.stack == s.stack && u.heap == s.heap && u.calls == s.calls
            &&& s.grows(k) || !g.grant() ==> {
                &&& r == Err::<F::Value, Raised>(Raised { status: Status::ErrMem })
                &&& u.error == Value::Str(vstd::utf8::encode_utf8("not enough memory"@))
            }
            &&& !s.grows(k) && g.grant() ==> {
                &&& r == Err::<F::Value, Raised>(Raised { status: Status::ErrRun })
                &&& u.error == Value::Str(
                    s.text() + vstd::utf8::encode_utf8(
                        "stack overflow ("@ + "not enough stack space for callback error handling"@
                            + ")"@,
                    ),
                )
            }
        }),
{
}

/// The traceback of a failed callback is the one that the interpreter writes, where there is
/// room for it: twelve slots, or the memory to get them. Memory runs short where it suffices
/// for the slots and not for the text.
pub proof fn law_traceback_of_a_callback<O>(t: State<O>)
    ensures
        t.room >= 12 || t.grant() ==> failure_trace(t) == text_of(t.text()),
        t.room < 12 && !t.grant() ==> failure_trace(t) == "<not enough stack space for traceback>"@,
        t.room >= 12 ==> (traceless(t) <==> !t.grant()),
        t.room < 12 ==> (traceless(t) <==> t.grant() && !t.spent().grant()),
{
    let s = t.with_stack(seq![t.stack[0]]);
    assert(s.stack.len() == 1);
}

/// The traceback of a failed callback begins at the callback itself, and nothing else is asked of
/// the interpreter once the callback has ended.
pub proof fn law_callback_asks_for_its_traceback<L: Lua, F: Callback<L>>(s: State<L::Object>, f: F)
    requires
        gets_to_run(s),
    ensures
        ({
            let (t, ending) = f.effect(work_frame(s));
            let u = callback_run::<L, F>(s, f).0;
            if ending is Failed && !traceless(t) && (t.room >= 12 || t.grant()) {
                u.calls == t.calls.push(Call::Traceback(0))
            } else {
                ending is Failed && traceless(t) || u.calls == t.calls
            }
        }),
{
    let t = f.effect(work_frame(s)).0;
    assert(t.with_stack(seq![t.stack[0]]).stack.len() == 1);
}

/// The body of a protected call sees the arguments and nothing else, in a frame with room of its
/// own.
pub proof fn law_body_sees_the_arguments<O>(s: State<O>, nargs: int)
    requires
        0 <= nargs <= s.stack.len(),
    ensures
        ({
            let b = body_frame(s, nargs);
            &&& b.stack.len() == nargs
            &&& s.stack.take(s.stack.len() - nargs) + b.stack == s.stack
            &&& b.upvalues.len() == 0
            &&& b.room >= nargs + 20
            &&& b.heap == s.heap && b.replies == s.replies && b.texts == s.texts
            &&& b.calls == s.calls && b.env == s.env && b.error == s.error
        }),
{
    assert(s.stack.take(s.stack.len() - nargs) + body_frame(s, nargs).stack =~= s.stack);
}

/// Where the body succeeds, a protected call returns its value, and replaces the arguments by
/// the results that were asked for, the topmost ones of the body's frame, or by all of them.
pub proof fn law_protected_call_succeeds<L: Lua, F: Body<L>>(
    s: State<L::Object>,
    nargs: int,
    nresults: int,
    f: F,
)
    requires
        0 <= nargs <= s.stack.len(),
        s.can_enter(nargs + 1),
        f.effect(body_frame(s, nargs)).1 is Ok,
        nresults == -1 || 0 <= nresults <= f.effect(body_frame(s, nargs)).0.stack.len(),
        s.stack.len() - nargs + f.effect(body_frame(s, nargs)).0.stack.len() < 1000000,
    ensures
        ({
            let below = s.stack.take(s.stack.len() - nargs);
            let (t, v) = f.effect(body_frame(s, nargs));
            let (u, r) = protected::<L, F>(s, nargs, nresults, f);
            &&& r == Ok::<F::Value, Failed>(v->Ok_0)
            &&& nresults == -1 ==> u.stack == below + t.stack
            &&& nresults >= 0 ==> {
                &&& u.stack.len() == below.len() + nresults
                &&& u.stack.take(below.len() as int) == below
                &&& forall|i: int|
                    0 <= i < nresults ==> #[trigger] u.stack[u.stack.len() - 1 - i]
                        == t.stack[t.stack.len() - 1 - i]
            }
            &&& u.heap == t.heap && u.memory == t.memory && u.calls == t.calls
            &&& u.replies == t.replies && u.texts == t.texts
            &&& u.error == s.error && u.upvalues == s.upvalues
        }),
{
    let below = s.stack.take(s.stack.len() - nargs);
    let t = f.effect(body_frame(s, nargs)).0;
    let u = protected::<L, F>(s, nargs, nresults, f).0;
    if nresults >= 0 {
        assert(u.stack =~= below + t.stack.skip(t.stack.len() - nresults));
        assert(u.stack.take(below.len() as int) =~= below);
    }
}

/// A protected call that cannot be made for a lack of memory, or whose body runs out of it, is
/// a memory error, and leaves what lies below the arguments.
pub proof fn law_protected_call_without_memory<L: Lua, F: Body<L>>(
    s: State<L::Object>,
    nargs: int,
    nresults: int,
    f: F,
)
    requires
        0 <= nargs <= s.stack.len(),
        !s.can_enter(nargs + 1) || f.effect(body_frame(s, nargs)).1 == Err::<F::Value, Raised>(
            Raised { status: Status::ErrMem },
        ) && f.effect(body_frame(s, nargs)).0.error == Value::Str(
            vstd::utf8::encode_utf8("not enough memory"@),
        ),
    ensures
        protected::<L, F>(s, nargs, nresults, f).1 == Err::<F::Value, Failed>(
            Failed::Error(ErrorModel::MemoryError("not enough memory"@)),
        ),
        protected::<L, F>(s, nargs, nresults, f).0.stack == s.stack.take(s.stack.len() - nargs),
{
    let below = s.stack.take(s.stack.len() - nargs);
    let u = protected::<L, F>(s, nargs, nresults, f).0;
    let m = Value::Str(vstd::utf8::encode_utf8("not enough memory"@));
    law_text_of_written("not enough memory"@);
    let q = s.back(
        if s.can_enter(nargs + 1) {
            f.effect(body_frame(s, nargs)).0
        } else {
            s.spent()
        },
        below.push(m),
    );
    assert(q.valid(-1) && q.at(-1) == m);
    assert(u.stack =~= below);
}

/// A string that is raised in a protected call comes out as a runtime error, with the traceback
/// behind it, where there is memory for that.
pub proof fn law_protected_call_raises_a_string<L: Lua, F: Body<L>>(
    s: State<L::Object>,
    nargs: int,
    nresults: int,
    f: F,
    t: State<L::Object>,
    b: Seq<u8>,
)
    requires
        0 <= nargs <= s.stack.len(),
        s.can_enter(nargs + 1),
        f.effect(body_frame(s, nargs)) == (
            t,
            Err::<F::Value, Raised>(Raised { status: Status::ErrRun }),
        ),
        t.error == Value::Str(b),
        t.heap.metatable(t.error) is None,
        t.can_enter(1),
        t.spent().grant(),
    ensures
        protected::<L, F>(s, nargs, nresults, f).1 == Err::<F::Value, Failed>(
            Failed::Error(ErrorModel::RuntimeError(text_of(c_string(b) + t.text()))),
        ),
        protected::<L, F>(s, nargs, nresults, f).0.stack == s.stack.take(s.stack.len() - nargs),
{
    let below = s.stack.take(s.stack.len() - nargs);
    let e = t.enter(Seq::empty(), seq![t.error]);
    law_traceback_of_strings(e, b);
    let (h, status, w) = handled::<L, ErrorTraceback>(
        t,
        ErrorTraceback,
        Seq::empty(),
        t.error,
    );
    assert(w == Value::Str(c_string(b) + t.text()));
    let q = s.back(h, below.push(w));
    assert(q.valid(-1) && q.at(-1) == w);
    assert(protected::<L, F>(s, nargs, nresults, f).0.stack =~= below);
}

/// `error_traceback` puts the text of a string error, up to a zero byte, and the traceback on
/// top of the error, and returns that one value. Without space for the traceback it returns the
/// text alone, and without memory for it there is a lack of memory.
pub proof fn law_traceback_of_strings<O>(s: State<O>, b: Seq<u8>)
    requires
        s.stack.len() >= 1,
        s.stack.last() == Value::Str(b),
        s.heap.metamethod(s.heap.metatable(s.stack.last()), "__tostring") is Nil,
        s.grows(2),
    ensures
        ({
            let g = s.grown(2).push(Value::Str(b));
            let (u, r) = with_traceback(s);
            &&& u.heap == s.heap
            &&& !g.grows(11) ==> {
                &&& r == Ok::<(i32, ()), Raised>((1, ()))
                &&& u.stack == s.stack.push(Value::Str(b)) && u.calls == s.calls
            }
            &&& g.grows(11) && g.grown(11).grant() ==> {
                &&& r == Ok::<(i32, ()), Raised>((1, ()))
                &&& u.stack == s.stack.push(Value::Str(c_string(b) + s.text()))
                &&& u.calls == s.calls.push(Call::Traceback(1))
            }
            &&& g.grows(11) && !g.grown(11).grant() ==> {
                &&& r == Err::<(i32, ()), Raised>(Raised { status: Status::ErrMem })
                &&& u.error == Value::Str(vstd::utf8::encode_utf8("not enough memory"@))
            }
        }),
{
    let g = s.grown(2).push(Value::Str(b));
    if g.grows(11) && g.grown(11).grant() {
        assert(with_traceback(s).0.stack =~= s.stack.push(Value::Str(c_string(b) + s.text())));
    }
}

/// For any other value that is no host failure, `error_traceback` asks for its text first. What
/// answers with a string gets the traceback on it, and an error of it goes on.
pub proof fn law_traceback_of_other_values<O>(s: State<O>, b: Seq<u8>)
    requires
        s.stack.len() >= 1,
        !(s.stack.last() is Str),
        s.heap.gc_userdata(s.stack.last(), FAILURE_KEY) is None,
        s.grows(2),
    ensures
        ({
            let asked = s.calls.push(Call::Text(s.stack.last()));
            let g = s.grown(2).push(Value::Str(b));
            let (u, r) = with_traceback(s);
            &&& s.reply().outcome == Outcome::Returns(seq![Value::Str(b)]) && g.grows(11)
                && g.grown(11).grant() ==> {
                &&& r == Ok::<(i32, ()), Raised>((1, ()))
                &&& u.stack == s.stack.push(Value::Str(c_string(b) + s.text()))
                &&& u.calls == asked.push(Call::Traceback(1))
            }
            &&& s.reply().outcome matches Outcome::Raises(status, w) ==> {
                &&& r == Err::<(i32, ()), Raised>(Raised { status })
                &&& u.error == w && u.calls == asked
            }
        }),
{
    let g = s.grown(2).push(Value::Str(b));
    if s.reply().outcome == Outcome::Returns(seq![Value::Str(b)]) && g.grows(11) && g.grown(
        11,
    ).grant() {
        assert(with_traceback(s).0.stack =~= s.stack.push(Value::Str(c_string(b) + s.text())));
    }
}

/// Without the space to tell what the error is, `error_traceback` leaves it as it is.
pub proof fn law_traceback_without_space<O>(s: State<O>)
    requires
        !s.grows(2),
    ensures
        with_traceback(s).1 == Ok::<(i32, ()), Raised>((1, ())),
        with_traceback(s).0.stack == s.stack,
        with_traceback(s).0.heap == s.heap,
        with_traceback(s).0.calls == s.calls,
{
}

/// C reads a text up to its first zero byte.
pub proof fn law_c_string(a: Seq<u8>, b: Seq<u8>)
    requires
        forall|i: int| 0 <= i < a.len() ==> a[i] != 0,
    ensures
        c_string(a) == a,
        c_string(a + seq![0u8] + b) == a,
    decreases a.len(),
{
    let s = a + seq![0u8] + b;
    if a.len() > 0 {
        let d = a.drop_first();
        law_c_string(d, b);
        assert(s.drop_first() =~= d + seq![0u8] + b);
        assert(a =~= seq![a[0]] + d);
    } else {
        assert(a =~= Seq::empty());
    }
}

/// A runtime error in a protected call for which there is no memory to call the message handler
/// is a memory error.
pub proof fn law_protected_call_without_memory_for_the_handler<L: Lua, F: Body<L>>(
    s: State<L::Object>,
    nargs: int,
    nresults: int,
    f: F,
)
    requires
        0 <= nargs <= s.stack.len(),
        s.can_enter(nargs + 1),
        f.effect(body_frame(s, nargs)).1 == Err::<F::Value, Raised>(
            Raised { status: Status::ErrRun },
        ),
        !f.effect(body_frame(s, nargs)).0.can_enter(1),
    ensures
        protected::<L, F>(s, nargs, nresults, f).1 == Err::<F::Value, Failed>(
            Failed::Error(ErrorModel::MemoryError("not enough memory"@)),
        ),
        protected::<L, F>(s, nargs, nresults, f).0.stack == s.stack.take(s.stack.len() - nargs),
{
    let below = s.stack.take(s.stack.len() - nargs);
    let t = f.effect(body_frame(s, nargs)).0;
    let m = Value::Str(vstd::utf8::encode_utf8("not enough memory"@));
    law_text_of_written("not enough memory"@);
    let q = s.back(t.spent(), below.push(m));
    assert(q.valid(-1) && q.at(-1) == m);
    assert(protected::<L, F>(s, nargs, nresults, f).0.stack =~= below);
}

/// Without memory for the message, too few arguments are a lack of memory.
pub proof fn law_no_memory_for_the_message<L: Lua>(s: State<L::Object>)
    requires
        s.grows(2),
        !s.grown(2).grant(),
    ensures
        ({
            let m = Value::Str(vstd::utf8::encode_utf8("not enough memory"@));
            &&& s.stack.len() == 0 ==> {
                &&& pcalled(s).1 == Err::<i32, Raised>(Raised { status: Status::ErrMem })
                &&& pcalled(s).0.error == m && pcalled(s).0.calls == s.calls
            }
            &&& xpcalled::<L>(s).1 == Err::<i32, Raised>(Raised { status: Status::ErrMem })
            &&& xpcalled::<L>(s).0.error == m && xpcalled::<L>(s).0.calls == s.calls
        }),
{
}

/// Without the stack space they need, the metamethods of userdata and the message handler of
/// `safe_xpcall` call nothing and raise a stack overflow.
pub proof fn law_no_space_for_metamethods<O>(s: State<O>)
    requires
        !s.grows(2),
        s.grown(2).grant(),
    ensures
        ({
            let e = Value::Str(s.text() + vstd::utf8::encode_utf8("stack overflow"@));
            let x = Raised { status: Status::ErrRun };
            &&& meta_index(s).1 == Err::<i32, Raised>(x)
            &&& meta_newindex(s).1 == Err::<i32, Raised>(x)
            &&& handled_by_upvalue(s).1 == Err::<(i32, ()), Raised>(x)
            &&& meta_index(s).0.error == e && meta_newindex(s).0.error == e
            &&& handled_by_upvalue(s).0.error == e
            &&& meta_index(s).0.calls == s.calls && meta_newindex(s).0.calls == s.calls
            &&& handled_by_upvalue(s).0.calls == s.calls
        }),
{
}

/// A string with which a protected call fails, other than at a runtime error, is the message of
/// the error that the status stands for; it gets no traceback.
pub proof fn law_protected_call_fails_with_a_status<L: Lua, F: Body<L>>(
    s: State<L::Object>,
    nargs: int,
    nresults: int,
    f: F,
    t: State<L::Object>,
    status: Status,
    b: Seq<u8>,
)
    requires
        0 <= nargs <= s.stack.len(),
        s.can_enter(nargs + 1),
        f.effect(body_frame(s, nargs)) == (t, Err::<F::Value, Raised>(Raised { status })),
        t.error == Value::Str(b),
    ensures
        ({
            let (u, r) = protected::<L, F>(s, nargs, nresults, f);
            let e = match status {
                Status::ErrMem => Some(ErrorModel::MemoryError(text_of(b))),
                Status::ErrErr => Some(ErrorModel::RuntimeError(text_of(b))),
                Status::ErrGcmm => Some(ErrorModel::GarbageCollectorError(text_of(b))),
                Status::ErrSyntax => Some(
                    ErrorModel::SyntaxError {
                        message: text_of(b),
                        incomplete_input: ends(text_of(b), "<eof>"@) || ends(
                            text_of(b),
                            "'<eof>'"@,
                        ),
                    },
                ),
                _ => None,
            };
            e is Some ==> {
                &&& r == Err::<F::Value, Failed>(Failed::Error(e->0))
                &&& u.stack == s.stack.take(s.stack.len() - nargs)
                &&& u.heap == t.heap && u.calls == t.calls
            }
        }),
{
    let below = s.stack.take(s.stack.len() - nargs);
    let q = s.back(t, below.push(t.error));
    assert(q.valid(-1) && q.at(-1) == t.error);
    if status != Status::ErrRun {
        assert(protected::<L, F>(s, nargs, nresults, f).0.stack =~= below);
    }
}

} // verus!

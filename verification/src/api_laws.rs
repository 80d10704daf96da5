//! What holds of the interpreter that the library works with.

use vstd::prelude::*;

use crate::api::gettable;
use crate::api::handled;
use crate::api::pcall;
use crate::api::rawset;
use crate::api::settable;
use crate::api::tolstring;
use crate::api::tostring;
use crate::api::CFn;
use crate::api::Lua;
use crate::state::known;
use crate::state::name;
use crate::state::Call;
use crate::state::Env;
use crate::state::Heap;
use crate::state::Outcome;
use crate::state::State;
use crate::state::TableModel;
use crate::value::LuaType;
use crate::value::LuaVersion;
use crate::value::Raised;
use crate::value::Status;
use crate::value::Value;

verus! {

/// A table has no entry under a key that nil was assigned to. Integers and the floats that equal
/// them are one key.
pub proof fn law_nil_removes(t: TableModel, k: Value, i: i64, text: Seq<char>, v: Value)
    ensures
        t.set(k, Value::Nil).entries.dom() == t.entries.dom().remove(k.key()),
        t.set(Value::Integer(i), v).get(Value::Number { text, whole: Some(i) }) == v,
        t.set(Value::Number { text, whole: Some(i) }, v).get(Value::Integer(i)) == v,
        t.set(k, v).metatable == t.metatable,
{
}

/// Tables and full userdata have metatables of their own, and any other value that of its type.
pub proof fn law_metatables<O>(h: Heap<O>, a: u64, v: Value)
    ensures
        h.tables.contains_key(a) ==> h.metatable(Value::Table(a)) == h.tables[a].metatable,
        h.userdata.contains_key(a) ==> h.metatable(Value::Userdata(a)) == h.userdata[a].metatable,
        !(v is Table) && !(v is Userdata) ==> {
            &&& h.metatable(v) is Some <==> h.basic.contains_key(v.tag())
            &&& h.basic.contains_key(v.tag()) ==> h.metatable(v) == Some(h.basic[v.tag()])
        },
{
}

/// An index counts from the bottom of the frame where it is positive, and from the top where it is
/// negative. Those from the pseudo-index of the registry on down name the registry and then the
/// bound values, from the first on.
pub proof fn law_indices<O>(s: State<O>, i: int)
    requires
        s.stack.len() <= 1000000,
    ensures
        1 <= i <= s.stack.len() ==> s.valid(i) && s.at(i) == s.stack[i - 1],
        1 <= i <= s.stack.len() ==> s.valid(-i) && s.at(-i) == s.stack[s.stack.len() - i],
        s.valid(-1001000) && s.at(-1001000) == Value::Table(s.heap.registry),
        1 <= i <= s.upvalues.len() ==> s.valid(-1001000 - i) && s.at(-1001000 - i)
            == s.upvalues[i - 1],
        i == 0 || s.stack.len() < i || -1001000 < i < -s.stack.len() || i < -1001000
            - s.upvalues.len() ==> !s.valid(i),
{
}

/// An integer reads as itself, a float as the integer that it equals, and a string as the integer
/// that it writes. Nothing else reads as an integer. A number reads as the string that the
/// interpreter writes for it.
pub proof fn law_readings(e: Env, i: i64, text: Seq<char>, whole: Option<i64>, b: Seq<u8>, v: Value)
    ensures
        e.integer(Value::Integer(i)) == Some(i),
        e.integer(Value::Number { text, whole }) == whole,
        e.numerals.contains_key(b) ==> e.integer(Value::Str(b)) == Some(e.numerals[b]),
        !e.numerals.contains_key(b) ==> e.integer(Value::Str(b)) is None,
        v.tag() != LuaType::Number && v.tag() != LuaType::Str ==> e.integer(v) is None && e.string(
            v,
        ) is None,
        e.string(Value::Str(b)) == Some(b),
        v.tag() == LuaType::Number && e.number_strings.contains_key(v) ==> e.string(v) == Some(
            e.number_strings[v],
        ),
{
}

/// Calls fail with any status but success and a yield; an error in a finalizer is a status of its
/// own only in two of the dialects.
pub proof fn law_statuses(version: LuaVersion)
    ensures
        !known(Status::Success, version) && !known(Status::Yield, version),
        known(Status::ErrRun, version) && known(Status::ErrSyntax, version),
        known(Status::ErrMem, version) && known(Status::ErrErr, version),
        known(Status::ErrGcmm, LuaVersion::Lua53) && known(Status::ErrGcmm, LuaVersion::Lua52),
        !known(Status::ErrGcmm, LuaVersion::Lua54) && !known(Status::ErrGcmm, LuaVersion::Lua51),
        !known(Status::ErrGcmm, LuaVersion::LuaJit),
{
}

/// A read of a table gives the entry, and asks the interpreter only where there is none and the
/// metatable names an `__index`. What that gives is cut to one value.
pub proof fn law_table_is_read<O>(s: State<O>, rest: Seq<Value>, k: Value, t: u64)
    requires
        s.stack == rest.push(k),
    ensures
        ({
            let (u, r) = gettable(s, t);
            let m = s.heap.table(t).metatable;
            let v = s.heap.get(t, k);
            if !(v is Nil) || m is None || s.heap.get(m->0, name("__index")) is Nil {
                &&& r is Ok && u.stack == rest.push(v)
                &&& u.heap == s.heap && u.calls == s.calls && u.replies == s.replies
            } else {
                &&& u.calls == s.calls.push(Call::Index(Value::Table(t), k))
                &&& u.heap == s.replied().heap
                &&& match s.reply().outcome {
                    Outcome::Returns(vs) => r is Ok && u.stack == rest.push(
                        if vs.len() > 0 {
                            vs[0]
                        } else {
                            Value::Nil
                        },
                    ),
                    Outcome::Raises(status, w) => r == Err::<(), Raised>(Raised { status })
                        && u.error == w,
                }
            }
        }),
{
    assert(rest.push(k).drop_last() =~= rest);
}

/// An assignment to a table changes the entry, and asks the interpreter only where there is none
/// and the metatable names a `__newindex`.
pub proof fn law_table_is_assigned_to<O>(
    s: State<O>,
    rest: Seq<Value>,
    k: Value,
    v: Value,
    t: u64,
)
    requires
        s.stack == rest.push(k).push(v),
    ensures
        ({
            let (u, r) = settable(s, t);
            let m = s.heap.table(t).metatable;
            if !(s.heap.get(t, k) is Nil) || m is None || s.heap.get(
                m->0,
                name("__newindex"),
            ) is Nil {
                &&& settable(s, t) == rawset(s, t)
                &&& u.calls == s.calls && u.replies == s.replies
            } else {
                &&& u.calls == s.calls.push(Call::Newindex(Value::Table(t), k, v))
                &&& u.heap == s.replied().heap
                &&& match s.reply().outcome {
                    Outcome::Returns(_) => r is Ok && u.stack == rest,
                    Outcome::Raises(status, w) => r == Err::<(), Raised>(Raised { status })
                        && u.error == w,
                }
            }
        }),
{
    assert(rest.push(k).push(v).take(rest.len() as int) =~= rest);
}

/// A raw assignment changes one entry of one table. It takes memory, and nil and what is not equal
/// to itself are refused as keys.
pub proof fn law_table_is_assigned_to_raw<O>(
    s: State<O>,
    rest: Seq<Value>,
    k: Value,
    v: Value,
    t: u64,
    x: u64,
    j: Value,
)
    requires
        s.stack == rest.push(k).push(v),
    ensures
        ({
            let (u, r) = rawset(s, t);
            let refused = k is Nil || k is Number && k->text == "NaN"@;
            &&& r is Ok <==> !refused && s.grant()
            &&& r is Ok ==> {
                &&& u.stack == rest
                &&& u.heap.get(x, j) == if x == t && j.key() == k.key() {
                    v
                } else {
                    s.heap.get(x, j)
                }
            }
            &&& r is Err ==> u.heap == s.heap
            &&& refused && s.grant() ==> r == Err::<(), Raised>(Raised { status: Status::ErrRun })
                && u.error == Value::Str(s.text())
            &&& !s.grant() ==> r == Err::<(), Raised>(Raised { status: Status::ErrMem }) && u.error
                == name("not enough memory")
        }),
{
    assert(rest.push(k).push(v).take(rest.len() as int) =~= rest);
}

/// The text of a value that has to be asked for must be a string, or else the interpreter
/// complains, where there is memory for its message.
pub proof fn law_text_is_a_string<O>(s: State<O>, v: Value, vs: Seq<Value>)
    requires
        !(v is Str) || !(s.heap.metamethod(s.heap.metatable(v), "__tostring") is Nil),
        s.reply().outcome == Outcome::Returns(vs),
    ensures
        ({
            let (u, r) = tolstring(s, v);
            &&& u.calls == s.calls.push(Call::Text(v)) && u.heap == s.replied().heap
            &&& if vs.len() > 0 && vs[0] is Str {
                r is Ok && u.stack == s.stack.push(vs[0])
            } else if s.grant() {
                r == Err::<(), Raised>(Raised { status: Status::ErrRun }) && u.error
                    == Value::Str(s.text())
            } else {
                r == Err::<(), Raised>(Raised { status: Status::ErrMem }) && u.error == name(
                    "not enough memory",
                )
            }
        }),
{
}

/// A number whose string is asked for turns into that string where it lies, and any other value
/// stays.
pub proof fn law_number_turns_into_its_string<O>(s: State<O>, i: int)
    requires
        1 <= i <= s.stack.len(),
    ensures
        ({
            let v = s.stack[i - 1];
            let (u, r) = tostring(s, i);
            if v.tag() != LuaType::Number {
                u == s && r == Ok::<Option<Seq<u8>>, Raised>(s.env.string(v))
            } else if s.grant() {
                &&& r == Ok::<Option<Seq<u8>>, Raised>(s.env.string(v))
                &&& u.stack.len() == s.stack.len() && u.heap == s.heap
                &&& u.stack[i - 1] == Value::Str(s.env.string(v)->0)
                &&& forall|j: int|
                    0 <= j < s.stack.len() && j != i - 1 ==> #[trigger] u.stack[j] == s.stack[j]
            } else {
                &&& r == Err::<Option<Seq<u8>>, Raised>(Raised { status: Status::ErrMem })
                &&& u.stack == s.stack && u.error == name("not enough memory")
            }
        }),
{
}

/// A call replaces the function and its arguments by the results, as many as were asked for. An
/// error of the function goes on with its status, and results that find no room on the stack are
/// a lack of memory.
pub proof fn law_called<O>(
    s: State<O>,
    below: Seq<Value>,
    f: Value,
    args: Seq<Value>,
    nresults: int,
)
    requires
        s.stack == below.push(f) + args,
        0 <= nresults,
    ensures
        ({
            let (u, r) = s.call(args.len() as int, nresults);
            &&& u.calls == s.calls.push(Call::Function(f, args)) && u.heap == s.replied().heap
            &&& match s.reply().outcome {
                Outcome::Returns(vs) => if below.len() + nresults <= 1000000 {
                    &&& r is Ok && u.stack.len() == below.len() + nresults
                    &&& u.stack.take(below.len() as int) == below
                    &&& forall|i: int|
                        0 <= i < nresults ==> #[trigger] u.stack[below.len() + i] == if i
                            < vs.len() {
                            vs[i]
                        } else {
                            Value::Nil
                        }
                } else {
                    r == Err::<(), Raised>(Raised { status: Status::ErrMem }) && u.error == name(
                        "not enough memory",
                    )
                },
                Outcome::Raises(status, w) => r == Err::<(), Raised>(Raised { status })
                    && u.error == w,
            }
        }),
{
    assert(s.below(args.len() as int) =~= below);
    assert(s.args(args.len() as int) =~= args);
    let u = s.call(args.len() as int, nresults).0;
    if s.reply().outcome is Returns && below.len() + nresults <= 1000000 {
        assert(u.stack.take(below.len() as int) =~= below);
    }
}

/// A protected call of a function that fails leaves the error in the place of the function and its
/// arguments, and gives the status of the error.
pub proof fn law_protected_call_keeps_the_status<O>(
    s: State<O>,
    below: Seq<Value>,
    f: Value,
    args: Seq<Value>,
    nresults: int,
    status: Status,
    w: Value,
)
    requires
        s.stack == below.push(f) + args,
        s.reply().outcome == Outcome::Raises(status, w),
    ensures
        pcall(s, args.len() as int, nresults).1 == status,
        pcall(s, args.len() as int, nresults).0.stack == below.push(w),
        pcall(s, args.len() as int, nresults).0.heap == s.replied().heap,
        pcall(s, args.len() as int, nresults).0.error == s.error,
        pcall(s, args.len() as int, nresults).0.calls == s.calls.push(Call::Function(f, args)),
{
    assert(s.below(args.len() as int) =~= below);
    assert(s.args(args.len() as int) =~= args);
}

/// A lack of memory inside a message handler is what the call fails with. Any other error inside
/// it the interpreter settles: with a status and an error of its own, or else with the status of
/// an error in error handling.
pub proof fn law_handler_fails<L: Lua, H: CFn<L>>(
    s: State<L::Object>,
    h: H,
    upvalues: Seq<Value>,
    v: Value,
    e: Raised,
)
    requires
        s.can_enter(1),
        h.effect(s.enter(upvalues, seq![v])).1 == Err::<(i32, H::Value), Raised>(e),
    ensures
        ({
            let t = h.effect(s.enter(upvalues, seq![v])).0;
            let (u, status, w) = handled::<L, H>(s, h, upvalues, v);
            if e.status == Status::ErrMem {
                u == t && status == Status::ErrMem && w == t.error
            } else {
                &&& u.heap == t.replied().heap && u.calls == t.calls
                &&& match t.reply().outcome {
                    Outcome::Raises(x, o) => status == x && w == o,
                    Outcome::Returns(_) => status == Status::ErrErr && w == t.error,
                }
            }
        }),
{
}

} // verus!

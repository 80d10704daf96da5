//! What holds of userdata, of the registry, and of what is left when memory runs out.

use vstd::prelude::*;

use crate::api::Lua;
use crate::call_laws::law_traceback_of_a_callback;
use crate::callback::callback_run;
use crate::callback::work_frame;
use crate::callback::Callback;
use crate::callback::EndingModel;
use crate::failure::popped;
use crate::laws::law_callback_error_is_returned;
use crate::lemmas::lemma_requests;
use crate::metatable::gc_partial;
use crate::metatable::gc_prepared;
use crate::metatable::lemma_field_names;
use crate::metatable::metatable_partial;
use crate::metatable::metatable_requests;
use crate::registry::metamethods;
use crate::registry::registry_partial;
use crate::registry::registry_requests;
use crate::registry::tostring_run;
use crate::registry::with_error_registry;
use crate::registry::Destructed;
use crate::registry::FailureText;
use crate::state::grants;
use crate::state::name;
use crate::state::own;
use crate::state::ClosureModel;
use crate::state::Heap;
use crate::state::State;
use crate::text::chain_message;
use crate::text::panic_message;
use crate::text::text_of;
use crate::text::texts_of;
use crate::userdata::destructed;
use crate::userdata::gc_pushed;
use crate::userdata::memory_failure;
use crate::userdata::with_closure;
use crate::userdata::with_table;
use crate::userdata::with_userdata;
use crate::value::CFunction;
use crate::value::ErrorModel;
use crate::value::Failed;
use crate::value::FailureModel;
use crate::value::LuaVersion;
use crate::value::PayloadModel;
use crate::value::Pointer;
use crate::value::Raised;
use crate::value::Status;
use crate::value::TypeKey;
use crate::value::Value;
use crate::value::FAILURE_KEY;
use crate::value::TEXT_KEY;

verus! {

/// A new table is empty, and has no metatable; everything else stays.
pub proof fn law_new_table<O>(h: Heap<O>, a: u64, k: Value, other: u64)
    ensures
        with_table(h, a).tables.contains_key(a),
        with_table(h, a).get(a, k) is Nil,
        with_table(h, a).metatable(Value::Table(a)) is None,
        other != a ==> with_table(h, a).table(other) == h.table(other),
        with_table(h, a).userdata == h.userdata,
        with_table(h, a).closures == h.closures,
        with_table(h, a).basic == h.basic,
        with_table(h, a).registry == h.registry,
        with_table(h, a).cached == h.cached,
{
}

/// A new userdata holds what it was given, and has no metatable; everything else stays.
pub proof fn law_new_userdata<O>(h: Heap<O>, a: u64, p: PayloadModel<O>, other: u64)
    ensures
        with_userdata(h, a, p).userdata.contains_key(a),
        with_userdata(h, a, p).userdata[a].payload == p,
        with_userdata(h, a, p).metatable(Value::Userdata(a)) is None,
        other != a && h.userdata.contains_key(other) ==> with_userdata(h, a, p).userdata[other]
            == h.userdata[other],
        with_userdata(h, a, p).tables == h.tables,
        with_userdata(h, a, p).closures == h.closures,
        with_userdata(h, a, p).basic == h.basic,
        with_userdata(h, a, p).registry == h.registry,
        with_userdata(h, a, p).cached == h.cached,
{
}

/// A userdata of a type carries the metatable that is registered for that type.
pub proof fn law_new_userdata_of_a_type<O>(
    h: Heap<O>,
    a: u64,
    p: PayloadModel<O>,
    key: TypeKey,
    t: u64,
    other: u64,
)
    requires
        h.registered(Pointer::GcMetatable(key)) == Value::Table(t),
    ensures
        gc_pushed(h, a, p, key).userdata.contains_key(a),
        gc_pushed(h, a, p, key).userdata[a].payload == p,
        gc_pushed(h, a, p, key).userdata[a].metatable == Some(t),
        other != a && h.userdata.contains_key(other) ==> gc_pushed(h, a, p, key).userdata[other]
            == h.userdata[other],
        gc_pushed(h, a, p, key).tables == h.tables,
        gc_pushed(h, a, p, key).closures == h.closures,
        gc_pushed(h, a, p, key).cached == h.cached,
{
}

/// A userdata that was taken holds nothing any more, and carries the metatable of destructed
/// userdata; everything else stays.
pub proof fn law_taken_userdata<O>(h: Heap<O>, a: u64, d: u64, other: u64)
    requires
        h.registered(Pointer::DestructedMetatable) == Value::Table(d),
    ensures
        destructed(h, a).userdata[a].payload is Vacant,
        destructed(h, a).userdata[a].metatable == Some(d),
        other != a && h.userdata.contains_key(other) ==> destructed(h, a).userdata[other]
            == h.userdata[other],
        destructed(h, a).tables == h.tables,
        destructed(h, a).closures == h.closures,
        destructed(h, a).cached == h.cached,
{
}

/// A value passes for a userdata of a type if and only if it is a full userdata that carries the
/// metatable that is registered for the type.
pub proof fn law_identity_of_userdata<O>(h: Heap<O>, v: Value, key: TypeKey, a: u64)
    ensures
        h.gc_userdata(v, key) == Some(a) <==> {
            &&& v == Value::Userdata(a)
            &&& h.userdata.contains_key(a)
            &&& h.userdata[a].metatable is Some
            &&& h.registered(Pointer::GcMetatable(key)) == Value::Table(
                h.userdata[a].metatable->0,
            )
        },
{
}

/// A lack of memory is reported by the message of the interpreter.
pub proof fn law_memory_failure()
    ensures
        memory_failure() == Failed::Error(ErrorModel::MemoryError("not enough memory"@)),
{
}

/// Nothing of `s` was lost on the way to `t`: its stack lies at the bottom, the userdata, the
/// registry's entries under addresses, and the tables other than `touched` are as they were.
pub open spec fn intact<O>(s: State<O>, t: State<O>, touched: Option<u64>) -> bool {
    &&& s.stack.is_prefix_of(t.stack)
    &&& t.heap.userdata == s.heap.userdata
    &&& forall|p: Pointer| #[trigger] t.heap.registered(p) == s.heap.registered(p)
    &&& forall|x: u64| #[trigger] s.heap.tables.contains_key(x) && touched != Some(x)
        ==> t.heap.tables.contains_key(x) && t.heap.tables[x] == s.heap.tables[x]
    &&& t.upvalues == s.upvalues && t.error == s.error
    &&& t.replies == s.replies && t.texts == s.texts && t.calls == s.calls
    &&& t.room == s.room && t.env == s.env
}

/// A type whose metatable cannot be made for a lack of memory is not registered, and nothing is
/// lost.
pub proof fn law_no_type_without_memory<O>(s: State<O>, key: TypeKey)
    requires
        s.wf(),
        !grants(s.memory, 8),
    ensures
        intact(s, gc_partial(s, key), None),
        !grants(s.memory, 2) ==> gc_partial(s, key).stack == s.stack,
        grants(s.memory, 2) ==> gc_partial(s, key).stack == s.stack.push(
            Value::Table(s.memory[1]->0),
        ),
        grants(s.memory, 2) && !grants(s.memory, 5) ==> gc_partial(s, key).heap.get(
            s.memory[1]->0,
            name("__gc"),
        ) is Nil,
        grants(s.memory, 5) ==> gc_partial(s, key).heap.get(s.memory[1]->0, name("__gc"))
            == Value::CFunction(CFunction::Destructor(key)),
        gc_partial(s, key).heap.cached == s.heap.cached.insert(key),
{
    let t = s.memory[1]->0;
    let u = gc_partial(s, key);
    if grants(s.memory, 2) {
        assert(s.memory[1] is Some);
        assert(s.heap.free(t));
    }
    assert(s.stack.push(Value::Table(t)).take(s.stack.len() as int) =~= s.stack);
    assert(forall|p: Pointer| #[trigger] u.heap.registered(p) == s.heap.registered(p));
}

/// A userdata metatable that cannot be finished for a lack of memory keeps all its entries but
/// for the fields that were replaced, and nothing else is lost.
pub proof fn law_no_metatable_without_memory<O>(
    s: State<O>,
    t: u64,
    getters: Option<i32>,
    setters: Option<i32>,
    methods: Option<i32>,
    key: TypeKey,
    k: Value,
)
    requires
        s.wf(),
        s.heap.tables.contains_key(t),
        t != s.heap.registry,
        !grants(s.memory, metatable_requests(getters, setters, methods)),
    ensures
        ({
            let u = metatable_partial(s, t, getters, setters, methods, key);
            &&& intact(s, u, Some(t))
            &&& u.stack == s.stack
            &&& k.key() != name("__index") && k.key() != name("__newindex") && k.key() != name(
                "__gc",
            ) ==> u.heap.get(t, k) == s.heap.get(t, k)
            &&& u.heap.get(t, name("__metatable")) == s.heap.get(t, name("__metatable"))
            &&& u.heap.get(t, name("__gc")) == if grants(
                s.memory,
                (metatable_requests(getters, setters, methods) - 3) as nat,
            ) {
                Value::CFunction(CFunction::Destructor(key))
            } else {
                s.heap.get(t, name("__gc"))
            }
            &&& u.heap.cached == s.heap.cached
        }),
{
    lemma_field_names();
    let u = metatable_partial(s, t, getters, setters, methods, key);
    if grants(s.memory, 7) {
        lemma_requests(s.memory, 7, 3);
        lemma_requests(s.memory, 7, 7);
    }
    if grants(s.memory, 14) {
        lemma_requests(s.memory, 14, 3);
    }
    assert(forall|p: Pointer| #[trigger] u.heap.registered(p) == s.heap.registered(p));
    assert(s.stack.take(s.stack.len() as int) =~= s.stack);
}

/// How much memory the metatables take: six requests for the destructor and the protection, and
/// seven for each of `__index` and `__newindex` that is made.
pub proof fn law_requests_of_metatables(i: i32, j: i32, k: i32)
    ensures
        metatable_requests(None, None, None) == 6,
        metatable_requests(Some(i), None, None) == 13,
        metatable_requests(None, None, Some(k)) == 13,
        metatable_requests(Some(i), None, Some(k)) == 13,
        metatable_requests(None, Some(j), None) == 13,
        metatable_requests(Some(i), Some(j), None) == 20,
        metatable_requests(None, Some(j), Some(k)) == 20,
        metatable_requests(Some(i), Some(j), Some(k)) == 20,
        registry_requests(LuaVersion::Lua54) == 106,
        registry_requests(LuaVersion::Lua53) == 106,
        registry_requests(LuaVersion::Lua52) == 85,
        registry_requests(LuaVersion::Lua51) == 79,
        registry_requests(LuaVersion::LuaJit) == 79,
{
}

/// `init_error_registry` adds to the heap and takes nothing away: other entries of the registry,
/// other tables, and userdata stay.
pub proof fn law_error_registry_adds<O>(s: State<O>, p: Pointer, x: u64)
    requires
        s.wf(),
        grants(s.memory, registry_requests(s.env.version)),
    ensures
        ({
            let h = with_error_registry(s.heap, s.memory, s.env.version);
            &&& p != Pointer::GcMetatable(FAILURE_KEY) && p != Pointer::GcMetatable(TEXT_KEY) && p
                != Pointer::DestructedMetatable && p != Pointer::ErrorPrintBuffer
                ==> h.registered(p) == s.heap.registered(p)
            &&& s.heap.tables.contains_key(x) && x != s.heap.registry ==> h.tables.contains_key(x)
                && h.tables[x] == s.heap.tables[x]
            &&& s.heap.userdata.contains_key(x) ==> h.userdata.contains_key(x) && h.userdata[x]
                == s.heap.userdata[x]
            &&& h.closures == s.heap.closures
            &&& h.registry == s.heap.registry
            &&& h.cached == s.heap.cached.insert(FAILURE_KEY).insert(TEXT_KEY)
        }),
{
    let n = 3 * metamethods(s.env.version).len();
    let m = s.memory;
    assert(m[1] is Some && m[14] is Some);
    assert(m[(18 + n) as int] is Some && m[(28 + n) as int] is Some);
    assert(s.heap.free(m[1]->0) && s.heap.free(m[14]->0));
    assert(s.heap.free(m[(18 + n) as int]->0) && s.heap.free(m[(28 + n) as int]->0));
}

/// The text that replaces a failure: for an error the message of its chain of sources, and for a
/// panic its message. The print buffer is empty afterwards. Where there is no memory for the
/// text, that is the failure.
pub proof fn law_text_of_failures<O>(s0: State<O>, texts: Seq<Seq<char>>)
    requires
        s0.stack.len() >= 1,
        s0.grows(3),
        s0.heap.failure(s0.stack.last()) is Some,
        s0.heap.buffer() is Some,
    ensures
        ({
            let s = s0.grown(3);
            let (u, ending) = tostring_run(s0, texts);
            let text = match s.heap.failure(s.stack.last())->0 {
                FailureModel::Error(_) => Some(chain_message(texts)),
                FailureModel::Panic(Some(p)) => Some(panic_message(p)),
                FailureModel::Panic(None) => None,
            };
            match text {
                Some(t) => {
                    &&& u.heap.tables == s.heap.tables
                    &&& if grants(s.memory, 2) {
                        &&& ending == EndingModel::Returned(1i32)
                        &&& u.stack == s.stack.drop_last().push(
                            Value::Str(vstd::utf8::encode_utf8(t)),
                        )
                        &&& u.heap.buffer() matches Some((_, left)) && left.len() == 0
                    } else {
                        &&& ending == EndingModel::<i32>::Failed(
                            ErrorModel::MemoryError("not enough memory"@),
                        )
                        &&& u.stack == s.stack.drop_last()
                        &&& u.heap.buffer() matches Some((_, left)) && left == t
                    }
                },
                None => {
                    &&& ending == EndingModel::<i32>::Failed(ErrorModel::PreviouslyResumedPanic)
                    &&& u.stack == s.stack && u.heap == s.heap
                },
            }
        }),
{
    let s = s0.grown(3);
    let u = tostring_run(s0, texts).0;
    assert(forall|q: Pointer| #[trigger] u.heap.registered(q) == s.heap.registered(q));
    if !(s.heap.failure(s.stack.last())->0 matches FailureModel::Panic(None)) {
        if grants(s.memory, 2) {
            assert(u.stack =~= s.stack.drop_last().push(u.stack.last()));
        } else {
            assert(u.stack =~= s.stack.drop_last());
        }
    }
}

/// What is no failure has no such text: the attempt fails and changes nothing.
pub proof fn law_text_of_something_else<O>(s: State<O>, texts: Seq<Seq<char>>)
    requires
        s.stack.len() >= 1,
        s.grows(3),
        s.heap.failure(s.stack.last()) is None,
    ensures
        tostring_run(s, texts) == (
            s.grown(3),
            EndingModel::<i32>::Failed(ErrorModel::UserDataTypeMismatch),
        ),
{
}

/// Without stack space the attempt fails as well.
pub proof fn law_text_without_stack_space<O>(s: State<O>, texts: Seq<Seq<char>>)
    requires
        !s.grows(3),
    ensures
        tostring_run(s, texts).1 == EndingModel::<i32>::Failed(ErrorModel::StackError),
        tostring_run(s, texts).0.stack == s.stack,
        tostring_run(s, texts).0.heap == s.heap,
{
}

/// A function that is bound to values has these values, and runs what it was made for; everything
/// else stays.
pub proof fn law_new_closure<O>(h: Heap<O>, a: u64, c: ClosureModel)
    ensures
        with_closure(h, a, c).upvalues(Value::Closure(a)) == c.upvalues,
        with_closure(h, a, c).runs(Value::Closure(a), c.function),
        with_closure(h, a, c).tables == h.tables,
        with_closure(h, a, c).userdata == h.userdata,
        with_closure(h, a, c).cached == h.cached,
{
}

/// `init_error_registry` that runs out of memory loses nothing that was there: the stack lies at
/// the bottom, and userdata, tables and entries of the registry other than its own stay.
pub proof fn law_registry_without_memory<O>(s: State<O>, p: Pointer, x: u64)
    requires
        s.wf(),
        !grants(s.memory, registry_requests(s.env.version)),
    ensures
        ({
            let u = registry_partial(s);
            &&& s.stack.is_prefix_of(u.stack)
            &&& !own(p) ==> u.heap.registered(p) == s.heap.registered(p)
            &&& s.heap.userdata.contains_key(x) ==> u.heap.userdata.contains_key(x)
                && u.heap.userdata[x] == s.heap.userdata[x]
            &&& s.heap.tables.contains_key(x) && x != s.heap.registry
                ==> u.heap.tables.contains_key(x) && u.heap.tables[x] == s.heap.tables[x]
            &&& u.heap.registered(Pointer::ErrorPrintBuffer) == s.heap.registered(
                Pointer::ErrorPrintBuffer,
            )
            &&& u.heap.cached.contains(FAILURE_KEY)
        }),
{
    let n = 3 * metamethods(s.env.version).len();
    let m = s.memory;
    let k = s.stack.len() as int;
    let u = registry_partial(s);
    if grants(m, 2) {
        assert(m[1] is Some);
        assert(s.heap.free(m[1]->0));
    }
    if grants(m, 15) {
        assert(m[14] is Some);
        assert(s.heap.free(m[14]->0));
    }
    if grants(m, 13) {
        lemma_requests(m, 13, 2);
    }
    if grants(m, 17 + n) {
        lemma_requests(m, 17 + n, 2);
        if grants(m, 19 + n) {
            assert(m[(18 + n) as int] is Some);
            assert(s.heap.free(m[(18 + n) as int]->0));
        }
    }
    if grants(m, 27 + n) {
        lemma_requests(m, 27 + n, 2);
        if grants(m, 29 + n) {
            assert(m[(28 + n) as int] is Some);
            assert(s.heap.free(m[(28 + n) as int]->0));
        }
    }
    assert(u.stack.take(k) =~= s.stack);
}

/// What `init_error_registry` leaves on the stack when it runs out of memory: the table that it
/// could not finish, and, for the metatable of destructed userdata, the function that goes into
/// it.
pub proof fn law_registry_leaves_unfinished_tables<O>(s: State<O>)
    ensures
        ({
            let u = registry_partial(s);
            let n = 3 * metamethods(s.env.version).len();
            let m = s.memory;
            let f = Value::CFunction(CFunction::DestructedError);
            if !grants(m, 2) {
                u.stack == s.stack
            } else if !grants(m, 11) {
                u.stack == s.stack.push(Value::Table(m[1]->0))
            } else if !grants(m, 15) {
                u.stack == s.stack
            } else if !grants(m, 15 + n) {
                u.stack == s.stack.push(Value::Table(m[14]->0)).push(f)
            } else if !grants(m, 19 + n) {
                u.stack == s.stack
            } else if !grants(m, 25 + n) {
                u.stack == s.stack.push(Value::Table(m[(18 + n) as int]->0))
            } else {
                u.stack == s.stack
            }
        }),
{
    let n = 3 * metamethods(s.env.version).len();
    let m = s.memory;
    let u = registry_partial(s);
    if grants(m, 13) {
        lemma_requests(m, 13, 2);
        lemma_requests(m, 13, 2 + n);
    }
    if grants(m, 17 + n) {
        lemma_requests(m, 17 + n, 2);
        lemma_requests(m, 17 + n, 8);
    }
    if grants(m, 27 + n) {
        lemma_requests(m, 27 + n, 2);
    }
    assert(forall|v: Value| (#[trigger] s.stack.push(v)).take(s.stack.len() as int) =~= s.stack);
    assert(u.stack =~= s.stack || u.stack.len() > s.stack.len());
}

/// A failure in a userdata with the failure metatable is what the userdata holds. It counts as a
/// panic whether or not the panic was resumed.
pub proof fn law_failures_are_found<O>(h: Heap<O>, a: u64, w: FailureModel, t: u64)
    requires
        h.registered(Pointer::GcMetatable(FAILURE_KEY)) == Value::Table(t),
        h.userdata.contains_key(a),
        h.userdata[a].metatable == Some(t),
        h.userdata[a].payload == PayloadModel::<O>::Failure(w),
    ensures
        h.failure(Value::Userdata(a)) == Some(w),
        w is Panic ==> h.wraps_panic(Value::Userdata(a)),
        w is Error ==> !h.wraps_panic(Value::Userdata(a)),
{
}

/// Nothing but a full userdata wraps a failure.
pub proof fn law_nothing_else_is_a_failure<O>(h: Heap<O>, v: Value)
    requires
        !(v is Userdata),
    ensures
        h.failure(v) is None,
        !h.wraps_panic(v),
{
}

/// Before a type is registered, its metatable is on top of the stack and complete, nothing
/// carries it, and the type is noted.
pub proof fn law_type_is_prepared<O>(s: State<O>, key: TypeKey, p: Pointer)
    requires
        s.wf(),
        grants(s.memory, 8),
    ensures
        ({
            let u = gc_prepared(s, key);
            let t = u.stack.last()->Table_0;
            &&& u.stack.len() == s.stack.len() + 1
            &&& u.stack.drop_last() == s.stack
            &&& u.stack.last() is Table && s.heap.free(t)
            &&& u.heap.get(t, name("__gc")) == Value::CFunction(CFunction::Destructor(key))
            &&& u.heap.get(t, name("__metatable")) == Value::Boolean(false)
            &&& u.heap.userdata == s.heap.userdata && u.heap.closures == s.heap.closures
            &&& u.heap.cached == s.heap.cached.insert(key)
            &&& u.heap.registered(p) == s.heap.registered(p)
            &&& u.memory == s.memory.skip(8)
        }),
{
    lemma_field_names();
    assert(s.memory[1] is Some);
    assert(s.heap.free(s.memory[1]->0));
    assert(gc_prepared(s, key).stack.drop_last() =~= s.stack);
}

/// The texts of strings, one for one.
pub proof fn law_texts_one_for_one(ts: Seq<String>, i: int)
    requires
        0 <= i < ts.len(),
    ensures
        texts_of(ts).len() == ts.len(),
        texts_of(ts)[i] == ts[i]@,
{
}

/// `error_tostring` replaces a failure by its text, from end to end: the message of the chain of
/// the error's texts, or the message of the panic.
pub proof fn law_failure_becomes_its_text<L: Lua>(s: State<L::Object>, f: FailureText)
    requires
        s.wf(),
        s.stack.len() >= 1,
        s.spare() >= 4,
        s.heap.failure(s.stack.last()) is Some,
        !(s.heap.failure(s.stack.last())->0 matches FailureModel::Panic(None)),
        s.heap.buffer() is Some,
        grants(s.memory, 3),
    ensures
        ({
            let (u, r) = callback_run::<L, FailureText>(s, f);
            let text = match s.heap.failure(s.stack.last())->0 {
                FailureModel::Panic(Some(p)) => panic_message(p),
                _ => chain_message(f.texts@.map_values(|t: String| t@)),
            };
            &&& r == Ok::<i32, Raised>(1)
            &&& u.stack == s.stack.drop_last().push(Value::Str(vstd::utf8::encode_utf8(text)))
        }),
{
    let w = work_frame(s);
    let a = s.memory[0]->0;
    assert(s.memory[0] is Some);
    assert(s.heap.free(a));
    assert(w.stack.last() == s.stack.last());
    assert(forall|q: Pointer| #[trigger] w.heap.registered(q) == s.heap.registered(q));
    assert(w.heap.failure(w.stack.last()) == s.heap.failure(s.stack.last()));
    assert(w.memory =~= s.memory.skip(1));
    assert(grants(w.memory, 2)) by {
        assert(w.memory[0] == s.memory[1] && w.memory[1] == s.memory[2]);
    }
    law_text_of_failures(w, texts_of(f.texts@));
    let t = <FailureText as Callback<L>>::effect(&f, w).0;
    assert(t.stack == w.stack.drop_last().push(t.stack.last()));
    assert(t.stack.remove(0) =~= s.stack.drop_last().push(t.stack.last()));
}

/// Every metamethod of a destructed userdata raises the error that says that it is destructed,
/// as the cause of a callback error, where there is memory for it.
pub proof fn law_destructed_error_is_raised<L: Lua>(
    s: State<L::Object>,
    c: State<L::Object>,
    below: Seq<Value>,
    status: Status,
)
    requires
        s.wf(),
        s.heap.registered(Pointer::GcMetatable(FAILURE_KEY)) is Table,
        s.spare() >= 12,
        grants(s.memory, 2),
    ensures
        ({
            let (u, r) = callback_run::<L, Destructed>(s, Destructed);
            &&& r == Err::<i32, Raised>(Raised { status: Status::ErrRun })
            &&& popped(c.back(u, below.push(u.error)), status).1 == Failed::Error(
                ErrorModel::CallbackError {
                    traceback: text_of(s.text()),
                    cause: Box::new(ErrorModel::CallbackDestructed),
                },
            )
        }),
{
    let w = work_frame(s);
    assert(s.memory[0] is Some && s.memory[1] is Some);
    assert(w.memory =~= s.memory.skip(1));
    assert(w.memory[0] == s.memory[1]);
    assert(w.stack[0] is Userdata);
    law_callback_error_is_returned::<L, Destructed>(
        s,
        Destructed,
        ErrorModel::CallbackDestructed,
        c,
        below,
        status,
    );
    law_traceback_of_a_callback(w);
}

/// What Lua makes of values: nil and false are not true, a float that equals an integer is filed
/// under that integer, and neither nil nor a number that is not one can be a key.
pub proof fn law_values(v: Value, i: i64, text: Seq<char>)
    ensures
        !Value::Nil.truthy() && !Value::Boolean(false).truthy() && Value::Boolean(true).truthy(),
        !(v is Nil) && !(v is Boolean) ==> v.truthy(),
        (Value::Number { text, whole: Some(i) }).key() == Value::Integer(i),
        !(v is Number) ==> v.key() == v,
        (Value::Number { text, whole: None }).key() == (Value::Number { text, whole: None }),
        !Value::Nil.is_key(),
        !(Value::Number { text: "NaN"@, whole: None }).is_key(),
        !(v is Nil) && !(v is Number) ==> v.is_key(),
{
}

} // verus!

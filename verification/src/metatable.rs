//! Metatables of userdata, and their registration.

use vstd::prelude::*;

use crate::api::Interp;
use crate::api::Lua;
use crate::lemmas::lemma_closure_wf;
use crate::lemmas::lemma_register_wf;
use crate::lemmas::lemma_requests;
use crate::meta::is_handler;
use crate::metatable_laws::is_absolute;
use crate::metatable_laws::law_metatable_binds_what_it_is_given;
use crate::protect::body_frame;
use crate::protect::ended;
use crate::protect::protect_lua;
use crate::protect::Body;
use crate::stack::check_stack;
use crate::stack::pop;
use crate::state::grants;
use crate::state::name;
use crate::state::own;
use crate::state::starved;
use crate::state::ClosureModel;
use crate::state::Heap;
use crate::state::State;
use crate::state::TableModel;
use crate::userdata::lemma_protect;
use crate::userdata::push_string;
use crate::userdata::push_table;
use crate::userdata::rawset_field;
use crate::userdata::starves;
use crate::userdata::with_closure;
use crate::userdata::with_table;
use crate::value::CFunction;
use crate::value::ErrorModel;
use crate::value::Failed;
use crate::value::Failure;
use crate::value::LuaType;
use crate::value::Pointer;
use crate::value::Raised;
use crate::value::Status;
use crate::value::TypeKey;
use crate::value::Value;
use crate::value::REGISTRY_INDEX;

verus! {

/// Binds the `n` topmost values to a C function.
pub struct Bind {
    pub function: CFunction,
    pub n: i32,
}

impl<L: Lua> Body<L> for Bind {
    type Value = ();

    open spec fn accepts(&self, s: State<L::Object>) -> bool {
        0 < self.n == s.stack.len()
    }

    open spec fn effect(&self, s: State<L::Object>) -> (State<L::Object>, Result<(), Raised>) {
        if s.grant() {
            let a = s.memory[0]->0;
            let c = ClosureModel { function: self.function, upvalues: s.stack };
            (
                s.spent().with_heap(with_closure(s.heap, a, c)).with_stack(
                    seq![Value::Closure(a)],
                ),
                Ok(()),
            )
        } else {
            (s.out_of_memory(), Err(Raised { status: Status::ErrMem }))
        }
    }

    fn run(self, state: &mut L) -> (r: Result<(), Raised>) {
        let ghost s = state@;
        let r = state.pushcclosure(self.function, self.n);
        proof {
            if s.grant() {
                let a = s.memory[0]->0;
                let c = ClosureModel { function: self.function, upvalues: s.stack };
                lemma_closure_wf(s.heap, a, c);
                assert(s.stack.skip(0) =~= s.stack);
                assert(s.stack.take(0).push(Value::Closure(a)) =~= seq![Value::Closure(a)]);
            }
        }
        r
    }
}

/// Replaces the `n` topmost values by the C function `function` with these values bound to it.
///
/// Uses three stack slots.
pub fn push_closure<L: Lua>(state: &mut L, function: CFunction, n: i32) -> (r: Result<(), Failure>)
    requires
        old(state)@.wf(),
        old(state)@.spare() >= 3,
        0 < n <= 255,
        n <= old(state)@.stack.len(),
    ensures
        ({
            let s = old(state)@;
            let below = s.stack.take(s.stack.len() - n);
            if grants(s.memory, 2) {
                let a = s.memory[1]->0;
                let c = ClosureModel { function, upvalues: s.args(n as int) };
                &&& r is Ok
                &&& final(state)@ == s.after(2).with_heap(with_closure(s.heap, a, c)).with_stack(
                    below.push(Value::Closure(a)),
                )
            } else {
                starves(r) && final(state)@ == s.starved().with_stack(below)
            }
        }),
        final(state)@.wf(),
{
    let ghost s = state@;
    proof {
        lemma_protect::<L, Bind>(s, n as int, 1, Bind { function, n });
        reveal_with_fuel(starved, 3);
    }
    let r = protect_lua(state, n, 1, Bind { function, n });
    proof {
        let below = s.stack.take(s.stack.len() - n);
        if grants(s.memory, 2) {
            let a = s.memory[1]->0;
            let c = ClosureModel { function, upvalues: s.args(n as int) };
            assert(state@ =~= s.after(2).with_heap(with_closure(s.heap, a, c)).with_stack(
                below.push(Value::Closure(a)),
            ));
        } else {
            assert(state@ =~= s.starved().with_stack(below));
        }
    }
    r
}

/// The value `v` can be registered under `p`: for a metatable of this library, it is a table
/// that nothing uses yet.
pub open spec fn registrable<O>(h: Heap<O>, p: Pointer, v: Value) -> bool {
    &&& v is Table ==> h.tables.contains_key(v->Table_0)
    &&& own(p) && v is Table ==> {
        &&& forall|q: Pointer| own(q) ==> #[trigger] h.registered(q) != v
        &&& forall|b: u64| #[trigger]
            h.userdata.contains_key(b) ==> h.userdata[b].metatable != Some(v->Table_0)
        &&& forall|b: LuaType| #[trigger] h.basic.contains_key(b) ==> h.basic[b] != v->Table_0
    }
}

/// Puts the value on top into the registry.
pub struct Register {
    pub pointer: Pointer,
}

impl<L: Lua> Body<L> for Register {
    type Value = ();

    open spec fn accepts(&self, s: State<L::Object>) -> bool {
        s.stack.len() == 1 && registrable(s.heap, self.pointer, s.stack[0])
    }

    open spec fn effect(&self, s: State<L::Object>) -> (State<L::Object>, Result<(), Raised>) {
        if s.grant() {
            (
                s.spent().pop(1).with_heap(s.heap.register(self.pointer, s.stack[0])),
                Ok(()),
            )
        } else {
            (s.out_of_memory(), Err(Raised { status: Status::ErrMem }))
        }
    }

    fn run(self, state: &mut L) -> (r: Result<(), Raised>) {
        proof {
            lemma_register_wf(state@.heap, self.pointer, state@.stack[0]);
        }
        state.rawsetp(REGISTRY_INDEX, self.pointer)
    }
}

/// Moves the value on top into the registry, under the address `pointer`.
///
/// Uses three stack slots.
pub fn register<L: Lua>(state: &mut L, pointer: Pointer) -> (r: Result<(), Failure>)
    requires
        old(state)@.wf(),
        old(state)@.spare() >= 3,
        old(state)@.stack.len() >= 1,
        registrable(old(state)@.heap, pointer, old(state)@.stack.last()),
    ensures
        ({
            let s = old(state)@;
            if grants(s.memory, 2) {
                &&& r is Ok
                &&& final(state)@ == s.after(2).pop(1).with_heap(
                    s.heap.register(pointer, s.stack.last()),
                )
            } else {
                starves(r) && final(state)@ == s.starved().pop(1)
            }
        }),
        final(state)@.wf(),
{
    let ghost s = state@;
    proof {
        lemma_protect::<L, Register>(s, 1, 0, Register { pointer });
        reveal_with_fuel(starved, 3);
        assert(body_frame(s, 1).stack =~= seq![s.stack.last()]);
    }
    let r = protect_lua(state, 1, 0, Register { pointer });
    proof {
        if grants(s.memory, 2) {
            assert(state@ =~= s.after(2).pop(1).with_heap(
                s.heap.register(pointer, s.stack.last()),
            ));
        } else {
            assert(state@ =~= s.starved().pop(1));
        }
    }
    r
}

/// A step that adds to the metatable on top of the stack.
pub trait Customize<L: Interp>: Sized {
    spec fn accepts(&self, s: State<L::Object>) -> bool;

    spec fn effect(&self, s: State<L::Object>) -> (State<L::Object>, Result<(), Failed>);

    fn run(self, state: &mut L) -> (r: Result<(), Failure>)
        requires
            old(state)@.wf(),
            old(state)@.spare() >= 5,
            self.accepts(old(state)@),
        ensures
            final(state)@ == self.effect(old(state)@).0,
            ended(r) == self.effect(old(state)@).1,
            final(state)@.wf(),
    ;
}

/// The step that adds nothing.
pub struct Plain;

impl<L: Lua> Customize<L> for Plain {
    open spec fn accepts(&self, s: State<L::Object>) -> bool {
        true
    }

    open spec fn effect(&self, s: State<L::Object>) -> (State<L::Object>, Result<(), Failed>) {
        (s, Ok(()))
    }

    fn run(self, state: &mut L) -> (r: Result<(), Failure>) {
        Ok(())
    }
}

/// What the step does, if there is one.
pub open spec fn customized<L: Interp, C: Customize<L>>(
    c: Option<C>,
    s: State<L::Object>,
) -> (State<L::Object>, Result<(), Failed>) {
    match c {
        Some(f) => f.effect(s),
        None => (s, Ok(())),
    }
}

/// The step leaves the stack as it found it, and the table `t` for this library to register.
pub open spec fn customizes<L: Interp, C: Customize<L>>(
    c: Option<C>,
    s: State<L::Object>,
    t: u64,
) -> bool {
    let (u, r) = customized::<L, C>(c, s);
    &&& c matches Some(f) ==> f.accepts(s)
    &&& r is Ok ==> {
        &&& u.stack == s.stack
        &&& u.room >= s.room
        &&& registrable(u.heap, Pointer::GcMetatable(0), Value::Table(t))
    }
}

/// The metatable of a type that the library looks after: its destructor, and a `__metatable`
/// field that keeps scripts away from it.
pub open spec fn gc_metatable(key: TypeKey) -> TableModel {
    TableModel::empty().set(name("__gc"), Value::CFunction(CFunction::Destructor(key))).set(
        name("__metatable"),
        Value::Boolean(false),
    )
}

/// The state in which the metatable for the type `key` is about to be registered: it is on top
/// of the stack.
pub open spec fn gc_prepared<O>(s: State<O>, key: TypeKey) -> State<O> {
    let t = s.memory[1]->0;
    s.after(8).with_heap(
        Heap {
            tables: s.heap.tables.insert(t, gc_metatable(key)),
            cached: s.heap.cached.insert(key),
            ..s.heap
        },
    ).push(Value::Table(t))
}

/// What is left where the memory does not suffice for the prepared state: the table, where
/// there is one, is on top of the stack, with the fields that it has got.
pub open spec fn gc_partial<O>(s: State<O>, key: TypeKey) -> State<O> {
    let t = s.memory[1]->0;
    let gc = Value::CFunction(CFunction::Destructor(key));
    let h = Heap { cached: s.heap.cached.insert(key), ..s.heap };
    if !grants(s.memory, 2) {
        s.starved().with_heap(h)
    } else if !grants(s.memory, 5) {
        s.starved().with_heap(with_table(h, t)).push(Value::Table(t))
    } else {
        s.starved().with_heap(with_table(h, t).set(t, name("__gc"), gc)).push(Value::Table(t))
    }
}

/// The prepared state is well formed, and nothing uses its new table yet.
pub proof fn lemma_gc_prepared<O>(s: State<O>, key: TypeKey)
    requires
        s.wf(),
        s.spare() >= 6,
        grants(s.memory, 8),
    ensures
        gc_prepared(s, key).wf(),
        registrable(
            gc_prepared(s, key).heap,
            Pointer::GcMetatable(0),
            Value::Table(s.memory[1]->0),
        ),
{
    let t = s.memory[1]->0;
    let p = gc_prepared(s, key);
    let h = s.heap;
    assert(s.memory[1] is Some);
    assert(h.free(t));
    assert(forall|q: Pointer| #[trigger] p.heap.registered(q) == h.registered(q));
    assert forall|b: u64| #[trigger] p.heap.userdata.contains_key(b) implies
        h.userdata.contains_key(b) by {}
    assert forall|i: int|
        0 <= i < p.memory.len() && (#[trigger] p.memory[i]) is Some implies p.heap.free(
        p.memory[i]->0,
    ) by {
        assert(p.memory[i] == s.memory[i + 8]);
    }
    assert forall|i: int, j: int|
        0 <= i < j < p.memory.len() && (#[trigger] p.memory[i]) is Some && (
        #[trigger] p.memory[j]) is Some implies p.memory[i]->0 != p.memory[j]->0 by {
        assert(p.memory[i] == s.memory[i + 8]);
        assert(p.memory[j] == s.memory[j + 8]);
    }
    assert forall|k: int| 0 <= k < p.replies.len() implies p.sound_reply(
        #[trigger] p.replies[k],
    ) by {
        assert(s.sound_reply(s.replies[k]));
        assert forall|i: int|
            0 <= i < p.memory.len() && (#[trigger] p.memory[i]) is Some
                && s.replies[k].heap is Some implies s.replies[k].heap->0.free(
            p.memory[i]->0,
        ) by {
            assert(p.memory[i] == s.memory[i + 8]);
        }
    }
}

/// Registers a metatable for the type `key`, with what `customize` adds to it.
///
/// Makes room on the stack itself, for the six slots that it uses.
pub fn init_gc_metatable<L: Lua, C: Customize<L>>(
    state: &mut L,
    key: TypeKey,
    customize: Option<C>,
) -> (r: Result<(), Failure>)
    requires
        old(state)@.wf(),
        old(state)@.grows(6) ==> old(state)@.heap.cached.len() < old(state)@.env.cache_capacity,
        ({
            let s = old(state)@.grown(6);
            old(state)@.grows(6) && grants(s.memory, 8) ==> customizes::<L, C>(
                customize,
                gc_prepared(s, key),
                s.memory[1]->0,
            )
        }),
    ensures
        ({
            let s = old(state)@.grown(6);
            let t = s.memory[1]->0;
            if !old(state)@.grows(6) {
                &&& r matches Err(e) && e@ == Failed::Error(ErrorModel::StackError)
                &&& final(state)@ == s
            } else if !grants(s.memory, 8) {
                starves(r) && final(state)@ == gc_partial(s, key)
            } else {
                let (u, cr) = customized::<L, C>(customize, gc_prepared(s, key));
                match cr {
                    Err(e) => ended(r) == Err::<(), Failed>(e) && final(state)@ == u,
                    Ok(_) => if grants(u.memory, 2) {
                        &&& r is Ok
                        &&& final(state)@ == u.after(2).pop(1).with_heap(
                            u.heap.register(Pointer::GcMetatable(key), Value::Table(t)),
                        )
                    } else {
                        starves(r) && final(state)@ == u.starved().pop(1)
                    },
                }
            }
        }),
        final(state)@.wf(),
{
    match check_stack(state, 6) {
        Ok(_) => {},
        Err(e) => {
            return Err(Failure::Error(e));
        },
    }
    let ghost s = state@;
    state.cache(key);
    proof {
        assert(forall|q: Pointer| #[trigger] state@.heap.registered(q) == s.heap.registered(q));
        assert forall|b: u64| #[trigger] state@.heap.userdata.contains_key(b) implies
            s.heap.userdata.contains_key(b) by {}
    }

    let pushed = push_table(state, 0, 3);
    proof {
        if pushed is Err {
            assert(state@ =~= gc_partial(s, key));
        }
    }
    pushed?;
    proof {
        lemma_requests(s.memory, 2, 3);
    }
    state.pushcfunction(CFunction::Destructor(key));
    let set = rawset_field(state, -2, "__gc".as_bytes());
    proof {
        if set is Err {
            assert(state@ =~= gc_partial(s, key));
        }
    }
    set?;
    proof {
        lemma_requests(s.memory, 5, 3);
    }
    state.pushboolean(false);
    let set = rawset_field(state, -2, "__metatable".as_bytes());
    proof {
        if set is Err {
            assert(state@ =~= gc_partial(s, key));
        }
    }
    set?;
    proof {
        assert(state@ =~= gc_prepared(s, key));
    }
    match customize {
        Some(f) => {
            f.run(state)?;
        },
        None => {},
    }
    register(state, Pointer::GcMetatable(key))
}

/// The value that an optional index names.
pub open spec fn at_index<O>(s: State<O>, idx: Option<i32>) -> Value {
    match idx {
        Some(i) => s.at(i as int),
        None => Value::Nil,
    }
}

/// An optional index names a value, or nothing.
pub open spec fn names_value<O>(s: State<O>, idx: Option<i32>) -> bool {
    idx matches Some(i) ==> s.valid(i as int)
}

/// The stack while an index metamethod is made: the metatable on top, then its old entry.
pub open spec fn with_old<O>(s: State<O>, t: u64, event: &str) -> State<O> {
    s.push(s.heap.get(t, name(event)))
}

/// The values that `meta_index_impl` is bound to: the old `__index` of the table `t`, the
/// getters and the methods. The indices count from the stack as it is when each is read.
pub open spec fn index_upvalues<O>(
    s: State<O>,
    t: u64,
    getters: Option<i32>,
    methods: Option<i32>,
) -> Seq<Value> {
    let s1 = with_old(s, t, "__index");
    let g = at_index(s1, getters);
    let m = at_index(s1.push(g), methods);
    seq![s.heap.get(t, name("__index")), g, m]
}

/// The state after the `__index` of the metatable `t`, which is on top, was wrapped.
pub open spec fn with_meta_index<O>(
    s: State<O>,
    t: u64,
    getters: Option<i32>,
    methods: Option<i32>,
) -> State<O> {
    let a = s.memory[3]->0;
    let c = ClosureModel {
        function: CFunction::MetaIndex,
        upvalues: index_upvalues(s, t, getters, methods),
    };
    s.after(7).with_heap(
        with_closure(s.heap, a, c).set(t, name("__index"), Value::Closure(a)),
    )
}

/// What is left where the memory does not suffice for that.
pub open spec fn index_partial<O>(
    s: State<O>,
    t: u64,
    getters: Option<i32>,
    methods: Option<i32>,
) -> State<O> {
    let c = ClosureModel {
        function: CFunction::MetaIndex,
        upvalues: index_upvalues(s, t, getters, methods),
    };
    if !grants(s.memory, 4) {
        s.starved()
    } else {
        s.starved().with_heap(with_closure(s.heap, s.memory[3]->0, c))
    }
}

/// The values that `meta_newindex_impl` is bound to.
pub open spec fn newindex_upvalues<O>(s: State<O>, t: u64, setters: i32) -> Seq<Value> {
    let s1 = with_old(s, t, "__newindex");
    seq![s.heap.get(t, name("__newindex")), s1.at(setters as int)]
}

/// The state after the `__newindex` of the metatable `t`, which is on top, was wrapped.
pub open spec fn with_meta_newindex<O>(s: State<O>, t: u64, setters: i32) -> State<O> {
    let a = s.memory[3]->0;
    let c = ClosureModel {
        function: CFunction::MetaNewindex,
        upvalues: newindex_upvalues(s, t, setters),
    };
    s.after(7).with_heap(
        with_closure(s.heap, a, c).set(t, name("__newindex"), Value::Closure(a)),
    )
}

/// What is left where the memory does not suffice for that.
pub open spec fn newindex_partial<O>(s: State<O>, t: u64, setters: i32) -> State<O> {
    let c = ClosureModel {
        function: CFunction::MetaNewindex,
        upvalues: newindex_upvalues(s, t, setters),
    };
    if !grants(s.memory, 4) {
        s.starved()
    } else {
        s.starved().with_heap(with_closure(s.heap, s.memory[3]->0, c))
    }
}

/// The state after the destructor and the protection were added to the metatable `t`.
pub open spec fn with_gc<O>(s: State<O>, t: u64, key: TypeKey) -> State<O> {
    s.after(6).with_heap(
        s.heap.set(t, name("__gc"), Value::CFunction(CFunction::Destructor(key))).set(
            t,
            name("__metatable"),
            Value::Boolean(false),
        ),
    )
}

/// Wraps the `__index` of the metatable on top.
fn wrap_index<L: Lua>(state: &mut L, getters: Option<i32>, methods: Option<i32>) -> (r: Result<
    (),
    Failure,
>)
    requires
        old(state)@.wf(),
        old(state)@.spare() >= 8,
        old(state)@.stack.len() >= 1,
        old(state)@.stack.last() matches Value::Table(t) && ({
            let s = old(state)@;
            let s1 = with_old(s, t, "__index");
            &&& s.heap.tables.contains_key(t)
            &&& is_handler(s.heap.get(t, name("__index")))
            &&& names_value(s1, getters)
            &&& names_value(s1.push(at_index(s1, getters)), methods)
        }),
    ensures
        ({
            let s = old(state)@;
            if grants(s.memory, 7) {
                &&& r is Ok
                &&& final(state)@ == with_meta_index(s, s.stack.last()->Table_0, getters, methods)
            } else {
                &&& starves(r)
                &&& final(state)@ == index_partial(s, s.stack.last()->Table_0, getters, methods)
            }
        }),
        final(state)@.wf(),
{
    let ghost s = state@;
    let ghost t = s.stack.last()->Table_0;
    push_string(state, "__index".as_bytes())?;
    let _ = state.rawget(-2);
    let ghost s1 = with_old(s, t, "__index");
    assert(state@ =~= s1.after(2));
    match getters {
        Some(idx) => state.pushvalue(idx),
        None => state.pushnil(),
    }
    let ghost s2 = s1.push(at_index(s1, getters));
    assert(state@ =~= s2.after(2));
    match methods {
        Some(idx) => state.pushvalue(idx),
        None => state.pushnil(),
    }
    let ghost ups = index_upvalues(s, t, getters, methods);
    proof {
        assert(state@.stack =~= s.stack + ups);
        assert(state@.args(3) =~= ups);
        assert(state@.stack.take(state@.stack.len() - 3) =~= s.stack);
        lemma_requests(s.memory, 2, 2);
    }
    let pushed = push_closure(state, CFunction::MetaIndex, 3);
    proof {
        if pushed is Err {
            assert(state@ =~= index_partial(s, t, getters, methods));
        }
    }
    pushed?;
    proof {
        lemma_requests(s.memory, 4, 3);
    }
    let set = rawset_field(state, -2, "__index".as_bytes());
    proof {
        if set is Err {
            assert(state@ =~= index_partial(s, t, getters, methods));
        }
    }
    set?;
    proof {
        assert(state@ =~= with_meta_index(s, t, getters, methods));
    }
    Ok(())
}

/// Wraps the `__newindex` of the metatable on top.
fn wrap_newindex<L: Lua>(state: &mut L, setters: i32) -> (r: Result<(), Failure>)
    requires
        old(state)@.wf(),
        old(state)@.spare() >= 8,
        old(state)@.stack.len() >= 1,
        old(state)@.stack.last() matches Value::Table(t) && ({
            let s = old(state)@;
            &&& s.heap.tables.contains_key(t)
            &&& is_handler(s.heap.get(t, name("__newindex")))
            &&& names_value(with_old(s, t, "__newindex"), Some(setters))
        }),
    ensures
        ({
            let s = old(state)@;
            if grants(s.memory, 7) {
                &&& r is Ok
                &&& final(state)@ == with_meta_newindex(s, s.stack.last()->Table_0, setters)
            } else {
                &&& starves(r)
                &&& final(state)@ == newindex_partial(s, s.stack.last()->Table_0, setters)
            }
        }),
        final(state)@.wf(),
{
    let ghost s = state@;
    let ghost t = s.stack.last()->Table_0;
    push_string(state, "__newindex".as_bytes())?;
    let _ = state.rawget(-2);
    let ghost s1 = with_old(s, t, "__newindex");
    assert(state@ =~= s1.after(2));
    state.pushvalue(setters);
    let ghost ups = newindex_upvalues(s, t, setters);
    proof {
        assert(state@.stack =~= s.stack + ups);
        assert(state@.args(2) =~= ups);
        assert(state@.stack.take(state@.stack.len() - 2) =~= s.stack);
        lemma_requests(s.memory, 2, 2);
    }
    let pushed = push_closure(state, CFunction::MetaNewindex, 2);
    proof {
        if pushed is Err {
            assert(state@ =~= newindex_partial(s, t, setters));
        }
    }
    pushed?;
    proof {
        lemma_requests(s.memory, 4, 3);
    }
    let set = rawset_field(state, -2, "__newindex".as_bytes());
    proof {
        if set is Err {
            assert(state@ =~= newindex_partial(s, t, setters));
        }
    }
    set?;
    proof {
        assert(state@ =~= with_meta_newindex(s, t, setters));
    }
    Ok(())
}

/// The requests for memory that `init_userdata_metatable` makes.
pub open spec fn metatable_requests(
    getters: Option<i32>,
    setters: Option<i32>,
    methods: Option<i32>,
) -> nat {
    let index: nat = if getters is Some || methods is Some { 7 } else { 0 };
    let newindex: nat = if setters is Some { 7 } else { 0 };
    index + newindex + 6
}

/// The state after `__index` was wrapped, where there is something to look up.
pub open spec fn index_wrapped<O>(
    s: State<O>,
    t: u64,
    getters: Option<i32>,
    methods: Option<i32>,
) -> State<O> {
    if getters is Some || methods is Some {
        with_meta_index(s, t, getters, methods)
    } else {
        s
    }
}

/// The state after `__newindex` was wrapped, where there are setters.
pub open spec fn newindex_wrapped<O>(s: State<O>, t: u64, setters: Option<i32>) -> State<O> {
    match setters {
        Some(i) => with_meta_newindex(s, t, i),
        None => s,
    }
}

/// What `init_userdata_metatable` leaves where the memory does not suffice. `s` has the metatable
/// `t` on top, where it stays.
pub open spec fn metatable_partial<O>(
    s: State<O>,
    t: u64,
    getters: Option<i32>,
    setters: Option<i32>,
    methods: Option<i32>,
    key: TypeKey,
) -> State<O> {
    let s1 = index_wrapped(s, t, getters, methods);
    let s2 = newindex_wrapped(s1, t, setters);
    if (getters is Some || methods is Some) && !grants(s.memory, 7) {
        index_partial(s, t, getters, methods)
    } else if setters is Some && !grants(s1.memory, 7) {
        newindex_partial(s1, t, setters->0)
    } else if !grants(s2.memory, 3) {
        s2.starved()
    } else {
        s2.starved().with_heap(
            s2.heap.set(t, name("__gc"), Value::CFunction(CFunction::Destructor(key))),
        )
    }
}

/// The indices that `init_userdata_metatable` is given, and the old metamethods, are such that
/// it can work with them. `s` has the metatable `t` on top.
pub open spec fn wrappable<O>(
    s: State<O>,
    t: u64,
    getters: Option<i32>,
    setters: Option<i32>,
    methods: Option<i32>,
) -> bool {
    let s1 = with_old(s, t, "__index");
    &&& s.heap.tables.contains_key(t)
    &&& getters is Some || methods is Some ==> {
        &&& is_handler(s.heap.get(t, name("__index")))
        &&& names_value(s1, getters)
        &&& names_value(s1.push(at_index(s1, getters)), methods)
    }
    &&& setters is Some ==> {
        &&& is_handler(s.heap.get(t, name("__newindex")))
        &&& names_value(with_old(s, t, "__newindex"), setters)
    }
}

/// Makes the table at `metatable` a metatable for userdata of the type `key`: gives it a
/// destructor, and a `__metatable` field that keeps scripts away from it. With getters or
/// methods, `__index` looks fields up in the getters, then in the methods, and then asks the
/// `__index` that was there before; with setters, `__newindex` does the same with those.
///
/// Uses nine stack slots.
pub fn init_userdata_metatable<L: Lua>(
    state: &mut L,
    metatable: i32,
    field_getters: Option<i32>,
    field_setters: Option<i32>,
    methods: Option<i32>,
    key: TypeKey,
) -> (r: Result<(), Failure>)
    requires
        old(state)@.wf(),
        old(state)@.spare() >= 9,
        old(state)@.valid(metatable as int),
        old(state)@.at(metatable as int) matches Value::Table(t) && wrappable(
            old(state)@.push(Value::Table(t)),
            t,
            field_getters,
            field_setters,
            methods,
        ),
    ensures
        ({
            let s = old(state)@;
            let t = s.at(metatable as int)->Table_0;
            let s1 = index_wrapped(s.push(Value::Table(t)), t, field_getters, methods);
            let s2 = newindex_wrapped(s1, t, field_setters);
            if grants(s.memory, metatable_requests(field_getters, field_setters, methods)) {
                r is Ok && final(state)@ == with_gc(s2, t, key).pop(1)
            } else {
                &&& starves(r)
                &&& final(state)@ == metatable_partial(
                    s.push(Value::Table(t)),
                    t,
                    field_getters,
                    field_setters,
                    methods,
                    key,
                )
            }
        }),
        r is Ok && (field_getters is Some ==> is_absolute(old(state)@, field_getters->0 as int))
            && (methods is Some ==> is_absolute(old(state)@, methods->0 as int)) && (
        field_setters is Some ==> is_absolute(old(state)@, field_setters->0 as int)) ==> {
            let s = old(state)@;
            let h = final(state)@.heap;
            let t = s.at(metatable as int)->Table_0;
            &&& final(state)@.stack == s.stack
            &&& field_getters is Some || methods is Some ==> h.upvalues(
                h.get(t, name("__index")),
            ) == seq![
                s.heap.get(t, name("__index")),
                if field_getters is Some {
                    s.at(field_getters->0 as int)
                } else {
                    Value::Nil
                },
                if methods is Some {
                    s.at(methods->0 as int)
                } else {
                    Value::Nil
                },
            ]
            &&& field_setters is Some ==> h.upvalues(h.get(t, name("__newindex"))) == seq![
                s.heap.get(t, name("__newindex")),
                s.at(field_setters->0 as int),
            ]
        },
        final(state)@.wf(),
{
    let ghost s = state@;
    let ghost t = s.at(metatable as int)->Table_0;
    state.pushvalue(metatable);
    let ghost s0 = state@;

    let ghost mut k: nat = 0;
    if field_getters.is_some() || methods.is_some() {
        wrap_index(state, field_getters, methods)?;
        proof {
            k = 7;
        }
    }
    let ghost s1 = state@;
    proof {
        lemma_requests(s.memory, 0, k);
        assert(s.memory.skip(0) =~= s.memory);
        lemma_requests(s.memory, k, if field_setters is Some { 7 } else { 0 });
        let all = metatable_requests(field_getters, field_setters, methods);
        lemma_requests(s.memory, k, (all - k) as nat);
        assert(s1.heap.get(t, name("__newindex")) == s0.heap.get(t, name("__newindex"))) by {
            lemma_field_names();
        }
    }

    match field_setters {
        Some(setters) => {
            wrap_newindex(state, setters)?;
            proof {
                k = k + 7;
            }
        },
        None => {},
    }
    let ghost s2 = state@;
    proof {
        lemma_requests(s.memory, k, 3);
    }

    state.pushcfunction(CFunction::Destructor(key));
    let set = rawset_field(state, -2, "__gc".as_bytes());
    proof {
        if set is Err {
            assert(state@ =~= s2.starved());
        }
    }
    set?;
    proof {
        lemma_requests(s.memory, k + 3, 3);
    }
    state.pushboolean(false);
    let set = rawset_field(state, -2, "__metatable".as_bytes());
    proof {
        if set is Err {
            assert(state@ =~= s2.starved().with_heap(
                s2.heap.set(t, name("__gc"), Value::CFunction(CFunction::Destructor(key))),
            ));
        }
    }
    set?;
    proof {
        assert(state@ =~= with_gc(s2, t, key));
    }
    pop(state, 1);
    proof {
        if (field_getters is Some ==> is_absolute(s, field_getters->0 as int)) && (methods is Some
            ==> is_absolute(s, methods->0 as int)) && (field_setters is Some ==> is_absolute(
            s,
            field_setters->0 as int,
        )) {
            law_metatable_binds_what_it_is_given(
                s,
                metatable,
                field_getters,
                field_setters,
                methods,
                key,
            );
        }
    }
    Ok(())
}

/// The names of the fields of a userdata metatable are different keys.
pub proof fn lemma_field_names()
    ensures
        name("__gc") != name("__metatable"),
        name("__gc") != name("__index"),
        name("__gc") != name("__newindex"),
        name("__metatable") != name("__index"),
        name("__metatable") != name("__newindex"),
        name("__index") != name("__newindex"),
{
    vstd::utf8::encode_utf8_decode_utf8("__gc"@);
    vstd::utf8::encode_utf8_decode_utf8("__metatable"@);
    vstd::utf8::encode_utf8_decode_utf8("__index"@);
    vstd::utf8::encode_utf8_decode_utf8("__newindex"@);
    reveal_strlit("__gc");
    reveal_strlit("__metatable");
    reveal_strlit("__index");
    reveal_strlit("__newindex");
    assert("__gc"@.len() == 4 && "__metatable"@.len() == 11);
    assert("__index"@.len() == 7 && "__newindex"@.len() == 10);
}

} // verus!

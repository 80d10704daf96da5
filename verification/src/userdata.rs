//! Strings, tables and userdata made under protection.

use vstd::prelude::*;

use crate::api::rawset;
use crate::api::Lua;
use crate::failure::get_gc_metatable;
use crate::failure::value_text;
use crate::lemmas::lemma_metatable_wf;
use crate::lemmas::lemma_payload_wf;
use crate::lemmas::lemma_set_wf;
use crate::lemmas::lemma_table_wf;
use crate::lemmas::lemma_userdata_wf;
use crate::protect::body_frame;
use crate::protect::failed;
use crate::protect::protect_lua;
use crate::protect::protected;
use crate::protect::Body;
use crate::stack::pop;
use crate::state::grants;
use crate::state::memory_message;
use crate::state::starved;
use crate::state::ClosureModel;
use crate::state::Heap;
use crate::state::State;
use crate::state::TableModel;
use crate::state::UserdataModel;
use crate::value::ErrorModel;
use crate::value::Failed;
use crate::value::Failure;
use crate::value::Payload;
use crate::value::PayloadModel;
use crate::value::Pointer;
use crate::value::Raised;
use crate::value::Status;
use crate::value::TypeKey;
use crate::value::Value;
use crate::value::MAX_STACK;
use crate::value::MIN_STACK;
use crate::value::REGISTRY_INDEX;

verus! {

/// The failure that a lack of memory is reported as.
pub open spec fn memory_failure() -> Failed {
    Failed::Error(ErrorModel::MemoryError("not enough memory"@))
}

/// `r` reports a lack of memory.
pub open spec fn starves<T>(r: Result<T, Failure>) -> bool {
    r matches Err(e) && e@ == memory_failure()
}

proof fn lemma_memory_failed<T, O>(s: State<O>, nargs: int, t: State<O>)
    requires
        s.wf(),
        0 <= nargs <= s.stack.len(),
        s.spare() >= 1,
    ensures
        failed::<T, O>(s, nargs, t, Status::ErrMem, memory_message()) == (
            s.back(t, s.stack.take(s.stack.len() - nargs)),
            Err::<T, Failed>(memory_failure()),
        ),
{
    let below = s.stack.take(s.stack.len() - nargs);
    let q = s.back(t, below.push(memory_message()));
    assert(q.stack.last() == memory_message());
    assert(q.at(-1) == memory_message());
    assert(q.tag(-1) == crate::value::LuaType::Str);
    vstd::utf8::encode_utf8_valid_utf8("not enough memory"@);
    vstd::utf8::encode_utf8_decode_utf8("not enough memory"@);
    assert(value_text(q, -1) == "not enough memory"@);
    assert(q.pop(1) =~= s.back(t, below));
}

/// What `protect_lua` comes to for a body that leaves few results and fails for a lack of
/// memory only.
pub proof fn lemma_protect<L: Lua, F: Body<L>>(s: State<L::Object>, nargs: int, nresults: int, f: F)
    requires
        s.wf(),
        0 <= nargs <= s.stack.len(),
        nargs + 1 + MIN_STACK <= MAX_STACK,
        0 <= nresults <= 2,
        s.spare() >= 3,
        s.grant() && f.effect(body_frame(s, nargs)).1 is Ok ==> nresults <= f.effect(
            body_frame(s, nargs),
        ).0.stack.len(),
    ensures
        ({
            let below = s.stack.take(s.stack.len() - nargs);
            let (t, r) = f.effect(body_frame(s, nargs));
            let p = protected::<L, F>(s, nargs, nresults, f);
            if !s.grant() {
                p == (s.back(s.spent(), below), Err::<F::Value, Failed>(memory_failure()))
            } else {
                &&& r matches Ok(v) ==> p == (
                    s.back(t, below + t.stack.skip(t.stack.len() - nresults)),
                    Ok::<F::Value, Failed>(v),
                )
                &&& r == Err::<F::Value, Raised>(Raised { status: Status::ErrMem }) && t.error
                    == memory_message() ==> p == (
                    s.back(t, below),
                    Err::<F::Value, Failed>(memory_failure()),
                )
            }
        }),
{
    let below = s.stack.take(s.stack.len() - nargs);
    let (t, r) = f.effect(body_frame(s, nargs));
    lemma_memory_failed::<F::Value, L::Object>(s, nargs, s.spent());
    lemma_memory_failed::<F::Value, L::Object>(s, nargs, t);
    if s.grant() && r is Ok {
        assert(protected::<L, F>(s, nargs, nresults, f).0 =~= s.back(
            t,
            below + t.stack.skip(t.stack.len() - nresults),
        ));
    }
}

/// Pushes a string.
pub struct PushString<'a> {
    pub s: &'a [u8],
}

impl<'a, L: Lua> Body<L> for PushString<'a> {
    type Value = ();

    open spec fn accepts(&self, s: State<L::Object>) -> bool {
        s.spare() >= 1
    }

    open spec fn effect(&self, s: State<L::Object>) -> (State<L::Object>, Result<(), Raised>) {
        if s.grant() {
            (s.spent().push(Value::Str(self.s@)), Ok(()))
        } else {
            (s.out_of_memory(), Err(Raised { status: Status::ErrMem }))
        }
    }

    fn run(self, state: &mut L) -> (r: Result<(), Raised>) {
        state.pushlstring(self.s)
    }
}

/// Pushes the string `s`.
///
/// Uses three stack slots.
pub fn push_string<L: Lua>(state: &mut L, s: &[u8]) -> (r: Result<(), Failure>)
    requires
        old(state)@.wf(),
        old(state)@.spare() >= 3,
    ensures
        if grants(old(state)@.memory, 2) {
            r is Ok && final(state)@ == old(state)@.after(2).push(Value::Str(s@))
        } else {
            starves(r) && final(state)@ == old(state)@.starved()
        },
        final(state)@.wf(),
{
    proof {
        lemma_protect::<L, PushString>(state@, 0, 1, PushString { s });
        reveal_with_fuel(starved, 3);
    }
    let r = protect_lua(state, 0, 1, PushString { s });
    proof {
        if grants(old(state)@.memory, 2) {
            assert(state@ =~= old(state)@.after(2).push(Value::Str(s@)));
        } else {
            assert(state@ =~= old(state)@.starved());
        }
    }
    r
}

/// The heap with an empty table at `a`.
pub open spec fn with_table<O>(h: Heap<O>, a: u64) -> Heap<O> {
    Heap { tables: h.tables.insert(a, TableModel::empty()), ..h }
}

/// The heap with a userdata at `a` that holds `p`.
pub open spec fn with_userdata<O>(h: Heap<O>, a: u64, p: PayloadModel<O>) -> Heap<O> {
    Heap { userdata: h.userdata.insert(a, UserdataModel { payload: p, metatable: None }), ..h }
}

/// The heap with a closure at `a`.
pub open spec fn with_closure<O>(h: Heap<O>, a: u64, c: ClosureModel) -> Heap<O> {
    Heap { closures: h.closures.insert(a, c), ..h }
}

/// Pushes a new table.
pub struct NewTable {
    pub narr: i32,
    pub nrec: i32,
}

impl<L: Lua> Body<L> for NewTable {
    type Value = ();

    open spec fn accepts(&self, s: State<L::Object>) -> bool {
        s.spare() >= 1 && self.narr >= 0 && self.nrec >= 0
    }

    open spec fn effect(&self, s: State<L::Object>) -> (State<L::Object>, Result<(), Raised>) {
        if s.grant() {
            let a = s.memory[0]->0;
            (s.spent().with_heap(with_table(s.heap, a)).push(Value::Table(a)), Ok(()))
        } else {
            (s.out_of_memory(), Err(Raised { status: Status::ErrMem }))
        }
    }

    fn run(self, state: &mut L) -> (r: Result<(), Raised>) {
        proof {
            if state@.grant() {
                lemma_table_wf(state@.heap, state@.memory[0]->0);
            }
        }
        state.createtable(self.narr, self.nrec)
    }
}

/// Pushes a new table with space for `narr` and `nrec` entries.
///
/// Uses three stack slots.
pub fn push_table<L: Lua>(state: &mut L, narr: i32, nrec: i32) -> (r: Result<(), Failure>)
    requires
        old(state)@.wf(),
        old(state)@.spare() >= 3,
        narr >= 0,
        nrec >= 0,
    ensures
        ({
            let s = old(state)@;
            if grants(s.memory, 2) {
                let a = s.memory[1]->0;
                &&& r is Ok
                &&& final(state)@ == s.after(2).with_heap(with_table(s.heap, a)).push(
                    Value::Table(a),
                )
            } else {
                starves(r) && final(state)@ == s.starved()
            }
        }),
        final(state)@.wf(),
{
    proof {
        lemma_protect::<L, NewTable>(state@, 0, 1, NewTable { narr, nrec });
        reveal_with_fuel(starved, 3);
    }
    let r = protect_lua(state, 0, 1, NewTable { narr, nrec });
    proof {
        let s = old(state)@;
        if grants(s.memory, 2) {
            let a = s.memory[1]->0;
            assert(state@ =~= s.after(2).with_heap(with_table(s.heap, a)).push(Value::Table(a)));
        } else {
            assert(state@ =~= s.starved());
        }
    }
    r
}

/// Sets the field `field` of the table on top to the value below it.
pub struct SetField<'a> {
    pub field: &'a [u8],
}

impl<'a, L: Lua> Body<L> for SetField<'a> {
    type Value = ();

    open spec fn accepts(&self, s: State<L::Object>) -> bool {
        &&& s.spare() >= 1
        &&& s.stack.len() == 2
        &&& s.stack[1] matches Value::Table(t) && s.heap.tables.contains_key(t)
    }

    open spec fn effect(&self, s: State<L::Object>) -> (State<L::Object>, Result<(), Raised>) {
        if grants(s.memory, 2) {
            (
                s.after(2).pop(2).push(s.stack[1]).with_heap(
                    s.heap.set(s.stack[1]->Table_0, Value::Str(self.field@), s.stack[0]),
                ),
                Ok(()),
            )
        } else if s.grant() {
            (
                s.spent().with_stack(
                    seq![s.stack[1], Value::Str(self.field@), s.stack[0]],
                ).out_of_memory(),
                Err(Raised { status: Status::ErrMem }),
            )
        } else {
            (s.out_of_memory(), Err(Raised { status: Status::ErrMem }))
        }
    }

    fn run(self, state: &mut L) -> (r: Result<(), Raised>) {
        let ghost s = state@;
        state.pushlstring(self.field)?;
        state.rotate(-3, 2);
        assert(state@.stack =~= seq![s.stack[1], Value::Str(self.field@), s.stack[0]]);
        let r = state.rawset(-3);
        proof {
            lemma_set_wf(s.heap, s.stack[1]->Table_0, Value::Str(self.field@), s.stack[0]);
            assert(state@ =~= <Self as Body<L>>::effect(&self, s).0);
        }
        r
    }
}

/// Sets the field `field` of the table at `table` to the value on top, which it pops.
///
/// Uses four stack slots.
pub fn rawset_field<L: Lua>(state: &mut L, table: i32, field: &[u8]) -> (r: Result<(), Failure>)
    requires
        old(state)@.wf(),
        old(state)@.spare() >= 4,
        old(state)@.stack.len() >= 1,
        old(state)@.valid(table as int),
        old(state)@.at(table as int) matches Value::Table(t)
            && old(state)@.heap.tables.contains_key(t),
    ensures
        ({
            let s = old(state)@;
            let t = s.at(table as int)->Table_0;
            if grants(s.memory, 3) {
                &&& r is Ok
                &&& final(state)@ == s.after(3).pop(1).with_heap(
                    s.heap.set(t, Value::Str(field@), s.stack.last()),
                )
            } else {
                starves(r) && final(state)@ == s.starved().pop(1)
            }
        }),
        final(state)@.wf(),
{
    let ghost s = state@;
    state.pushvalue(table);
    let ghost p = state@;
    proof {
        let frame = body_frame(p, 2);
        assert(frame.stack =~= seq![s.stack.last(), s.at(table as int)]);
        lemma_protect::<L, SetField>(p, 2, 0, SetField { field });
        reveal_with_fuel(starved, 4);
    }
    let r = protect_lua(state, 2, 0, SetField { field });
    proof {
        let t = s.at(table as int)->Table_0;
        if grants(s.memory, 3) {
            assert(grants(body_frame(p, 2).memory, 2)) by {
                assert(body_frame(p, 2).memory[0] == s.memory[1]);
                assert(body_frame(p, 2).memory[1] == s.memory[2]);
            }
            assert(state@ =~= s.after(3).pop(1).with_heap(
                s.heap.set(t, Value::Str(field@), s.stack.last()),
            ));
        } else {
            if s.grant() && grants(body_frame(p, 2).memory, 2) {
                assert(body_frame(p, 2).memory[0] == s.memory[1]);
                assert(body_frame(p, 2).memory[1] == s.memory[2]);
                assert(false);
            }
            assert(state@ =~= s.starved().pop(1));
        }
    }
    r
}

/// Pushes a new userdata, and hands out the address of its block.
pub struct NewUserdata;

impl<L: Lua> Body<L> for NewUserdata {
    type Value = u64;

    open spec fn accepts(&self, s: State<L::Object>) -> bool {
        s.spare() >= 1
    }

    open spec fn effect(&self, s: State<L::Object>) -> (State<L::Object>, Result<u64, Raised>) {
        if s.grant() {
            let a = s.memory[0]->0;
            (
                s.spent().with_heap(with_userdata(s.heap, a, PayloadModel::Vacant)).push(
                    Value::Userdata(a),
                ),
                Ok(a),
            )
        } else {
            (s.out_of_memory(), Err(Raised { status: Status::ErrMem }))
        }
    }

    fn run(self, state: &mut L) -> (r: Result<u64, Raised>) {
        proof {
            if state@.grant() {
                lemma_userdata_wf(state@.heap, state@.memory[0]->0, PayloadModel::Vacant);
            }
        }
        state.newuserdata()
    }
}

/// Pushes a new userdata that holds `t`.
///
/// Uses three stack slots.
pub fn push_userdata<L: Lua>(state: &mut L, t: Payload<L::Object>) -> (r: Result<(), Failure>)
    requires
        old(state)@.wf(),
        old(state)@.spare() >= 3,
    ensures
        ({
            let s = old(state)@;
            if grants(s.memory, 2) {
                let a = s.memory[1]->0;
                &&& r is Ok
                &&& final(state)@ == s.after(2).with_heap(with_userdata(s.heap, a, t@)).push(
                    Value::Userdata(a),
                )
            } else {
                starves(r) && final(state)@ == s.starved()
            }
        }),
        final(state)@.wf(),
{
    proof {
        lemma_protect::<L, NewUserdata>(state@, 0, 1, NewUserdata);
        reveal_with_fuel(starved, 3);
    }
    let ghost s = state@;
    match protect_lua(state, 0, 1, NewUserdata) {
        Ok(ud) => {
            proof {
                assert(state@.heap.userdata.contains_key(ud));
                lemma_userdata_wf(s.heap, ud, t@);
            }
            state.put_payload(ud, t);
            proof {
                assert(state@ =~= s.after(2).with_heap(with_userdata(s.heap, ud, t@)).push(
                    Value::Userdata(ud),
                ));
            }
            Ok(())
        },
        Err(e) => {
            assert(state@ =~= s.starved());
            Err(e)
        },
    }
}

/// The block of the userdata at `index`.
pub fn get_userdata<L: Lua>(state: &L, index: i32) -> (a: u64)
    requires
        state@.wf(),
        state@.valid(index as int),
        state@.env.userdata(state@.at(index as int)) is Some,
    ensures
        Some(a) == state@.env.userdata(state@.at(index as int)),
{
    match state.touserdata(index) {
        Some(a) => a,
        None => 0,
    }
}

/// Pushes the metatable of destructed userdata.
pub fn get_destructed_userdata_metatable<L: Lua>(state: &mut L)
    requires
        old(state)@.wf(),
        old(state)@.spare() >= 1,
    ensures
        final(state)@ == old(state)@.push(
            old(state)@.heap.registered(Pointer::DestructedMetatable),
        ),
{
    state.rawgetp(REGISTRY_INDEX, Pointer::DestructedMetatable);
}

/// The metatable that `v` stands for.
pub open spec fn as_metatable(v: Value) -> Option<u64> {
    match v {
        Value::Table(t) => Some(t),
        _ => None,
    }
}

/// The heap after the payload of the userdata at `a` was moved out: the block is vacant, and
/// carries the metatable of destructed userdata.
pub open spec fn destructed<O>(h: Heap<O>, a: u64) -> Heap<O> {
    Heap {
        userdata: h.userdata.insert(
            a,
            UserdataModel {
                payload: PayloadModel::Vacant,
                metatable: as_metatable(h.registered(Pointer::DestructedMetatable)),
            },
        ),
        ..h
    }
}

/// Pops the userdata on top and returns what it holds. The userdata itself gets the metatable of
/// destructed ones: it is not dropped again, and passes for no type any more.
///
/// Uses one stack slot.
pub fn take_userdata<L: Lua>(state: &mut L) -> (t: Payload<L::Object>)
    requires
        old(state)@.wf(),
        old(state)@.spare() >= 1,
        old(state)@.stack.len() >= 1,
        old(state)@.stack.last() matches Value::Userdata(a)
            && old(state)@.heap.userdata.contains_key(a),
        old(state)@.heap.registered(Pointer::DestructedMetatable) is Table
            || old(state)@.heap.registered(Pointer::DestructedMetatable) is Nil,
    ensures
        ({
            let s = old(state)@;
            let a = s.stack.last()->Userdata_0;
            &&& t@ == s.heap.userdata[a].payload
            &&& final(state)@ == s.pop(1).with_heap(destructed(s.heap, a))
        }),
        final(state)@.wf(),
{
    let ghost s = state@;
    let ghost a = s.stack.last()->Userdata_0;
    get_destructed_userdata_metatable(state);
    proof {
        lemma_metatable_wf(
            s.heap,
            a,
            as_metatable(s.heap.registered(Pointer::DestructedMetatable)),
        );
    }
    state.setmetatable(-2);
    let ghost h = state@.heap;
    let ud: u64 = get_userdata(state, -1);
    pop(state, 1);
    proof {
        assert(forall|p: Pointer| #[trigger] h.registered(p) == s.heap.registered(p));
        lemma_payload_wf(h, a, PayloadModel::Vacant);
    }
    let t = state.take_payload(ud);
    assert(state@ =~= s.pop(1).with_heap(destructed(s.heap, a)));
    t
}

/// The garbage collection callback of userdata: drops what the userdata on top holds.
pub fn userdata_destructor<L: Lua>(state: &mut L) -> (n: i32)
    requires
        old(state)@.wf(),
        old(state)@.spare() >= 1,
        old(state)@.stack.len() >= 1,
        old(state)@.stack.last() matches Value::Userdata(a)
            && old(state)@.heap.userdata.contains_key(a),
        old(state)@.heap.registered(Pointer::DestructedMetatable) is Table
            || old(state)@.heap.registered(Pointer::DestructedMetatable) is Nil,
    ensures
        n == 0,
        final(state)@ == old(state)@.pop(1).with_heap(
            destructed(old(state)@.heap, old(state)@.stack.last()->Userdata_0),
        ),
        final(state)@.wf(),
{
    let _ = take_userdata(state);
    0
}

/// The heap with a userdata at `a` that holds `p`, a value of the type `key`, and carries the
/// metatable that is registered for that type.
pub open spec fn gc_pushed<O>(h: Heap<O>, a: u64, p: PayloadModel<O>, key: TypeKey) -> Heap<O> {
    with_userdata(h, a, p).with_metatable(
        Value::Userdata(a),
        as_metatable(h.registered(Pointer::GcMetatable(key))),
    )
}

/// Pushes a new userdata that holds `t`, a value of the type `key`, with the metatable that is
/// registered for that type.
///
/// Uses three stack slots.
pub fn push_gc_userdata<L: Lua>(state: &mut L, t: Payload<L::Object>, key: TypeKey) -> (r: Result<
    (),
    Failure,
>)
    requires
        old(state)@.wf(),
        old(state)@.spare() >= 3,
        old(state)@.heap.cached.contains(key),
        t@.fits(key),
        old(state)@.heap.registered(Pointer::GcMetatable(key)) is Table
            || old(state)@.heap.registered(Pointer::GcMetatable(key)) is Nil,
    ensures
        ({
            let s = old(state)@;
            if grants(s.memory, 2) {
                let a = s.memory[1]->0;
                &&& r is Ok
                &&& final(state)@ == s.after(2).with_heap(gc_pushed(s.heap, a, t@, key)).push(
                    Value::Userdata(a),
                )
            } else {
                starves(r) && final(state)@ == s.starved()
            }
        }),
        final(state)@.wf(),
{
    let ghost s = state@;
    match push_userdata(state, t) {
        Ok(_) => {},
        Err(e) => {
            return Err(e);
        },
    }
    let ghost h = state@.heap;
    let ghost a = s.memory[1]->0;
    proof {
        assert(forall|p: Pointer| #[trigger] h.registered(p) == s.heap.registered(p));
        assert(h.userdata.contains_key(a));
        lemma_metatable_wf(
            h,
            a,
            as_metatable(s.heap.registered(Pointer::GcMetatable(key))),
        );
    }
    get_gc_metatable(state, key);
    state.setmetatable(-2);
    proof {
        assert(state@ =~= s.after(2).with_heap(gc_pushed(s.heap, a, t@, key)).push(
            Value::Userdata(a),
        ));
    }
    Ok(())
}

} // verus!

//! The metamethods that look fields up in tables of getters, setters and methods.

use vstd::prelude::*;

use crate::api::complaint;
use crate::api::gettable;
use crate::api::overflowed;
use crate::api::settable;
use crate::api::tostring;
use crate::api::Lua;
use crate::slot::copy_c_string;
use crate::stack::insert;
use crate::stack::pop;
use crate::stack::remove;
use crate::state::c_string;
use crate::state::State;
use crate::value::LuaType;
use crate::value::Raised;
use crate::value::Value;
use crate::value::REGISTRY_INDEX;

verus! {

/// The value can stand in for a metamethod: nothing, a table or a function.
pub open spec fn is_handler(v: Value) -> bool {
    v is Nil || v is Table || v.tag() == LuaType::Function
}

/// The bytes of the message that says what is wrong with the field `field`, whose name ends at
/// its first zero byte.
pub open spec fn field_message(head: Seq<char>, field: Option<Seq<u8>>) -> Seq<u8> {
    vstd::utf8::encode_utf8(head) + match field {
        Some(f) => c_string(f),
        None => vstd::utf8::encode_utf8("(null)"@),
    } + vstd::utf8::encode_utf8("'"@)
}

/// The error of an access to a field that nothing answers for: `idx` names its key, and `head` is
/// the beginning of the message.
pub open spec fn unknown_field<O>(s: State<O>, idx: int, head: Seq<char>) -> (
    State<O>,
    Result<i32, Raised>,
) {
    let (t, field) = tostring(s, idx);
    match field {
        Ok(f) => complaint(t, t.text() + field_message(head, f)),
        Err(e) => (t, Err(e)),
    }
}

fn message(head: &str, field: Option<Vec<u8>>) -> (r: Vec<u8>)
    ensures
        r@ == field_message(
            head@,
            match field {
                Some(f) => Some(f@),
                None => None,
            },
        ),
{
    let mut r: Vec<u8> = head.as_bytes_vec();
    match field {
        Some(f) => {
            let mut f = copy_c_string(f.as_slice());
            r.append(&mut f);
        },
        None => {
            let mut f: Vec<u8> = "(null)".as_bytes_vec();
            r.append(&mut f);
        },
    }
    let mut quote: Vec<u8> = "'".as_bytes_vec();
    r.append(&mut quote);
    r
}

/// What the table `t` holds under `k`; nothing, where `t` is nil.
pub open spec fn lookup<O>(s: State<O>, t: Value, k: Value) -> Value {
    match t {
        Value::Table(a) => s.heap.get(a, k),
        _ => Value::Nil,
    }
}

/// What `meta_index_impl` does on the frame `self, key`, with the bound values `__index`,
/// `field_getters` and `methods`: it calls the getter of the key, or else gives the method of
/// that name, or else asks the original `__index`.
pub open spec fn meta_index<O>(s0: State<O>) -> (State<O>, Result<i32, Raised>) {
    let s = s0.grown(2);
    let n = s.stack.len() as int;
    let obj = s.stack[n - 2];
    let key = s.stack[n - 1];
    let rest = s.stack.take(n - 2);
    let index = s.upvalues[0];
    let getter = lookup(s, s.upvalues[1], key);
    let method = lookup(s, s.upvalues[2], key);
    if !s0.grows(2) {
        overflowed(s, None)
    } else if !(getter is Nil) {
        finish(s.with_stack(rest.push(getter).push(obj)).call(1, 1), 1)
    } else if !(method is Nil) {
        (s.with_stack(rest.push(method)), Ok(1))
    } else if index is Nil {
        unknown_field(s, -1, "attempt to get an unknown field '"@)
    } else if index is Table {
        finish(
            gettable(s.with_stack(rest.push(obj).push(index).push(key)), index->Table_0),
            1,
        )
    } else {
        finish(s.with_stack(rest.push(index).push(obj).push(key)).call(2, 1), 1)
    }
}

/// The end of a C function that returns `n` values after its last step.
pub open spec fn finish<O>(step: (State<O>, Result<(), Raised>), n: i32) -> (
    State<O>,
    Result<i32, Raised>,
) {
    (
        step.0,
        match step.1 {
            Ok(_) => Ok(n),
            Err(e) => Err(e),
        },
    )
}

/// The `__index` metamethod of userdata.
pub fn meta_index_impl<L: Lua>(state: &mut L) -> (r: Result<i32, Raised>)
    requires
        old(state)@.wf(),
        old(state)@.stack.len() >= 2,
        old(state)@.upvalues.len() == 3,
        is_handler(old(state)@.upvalues[0]),
        old(state)@.upvalues[1] is Nil || old(state)@.upvalues[1] is Table,
        old(state)@.upvalues[2] is Nil || old(state)@.upvalues[2] is Table,
    ensures
        (final(state)@, r) == meta_index(old(state)@),
{
    state.checkstack_or_raise(2, None)?;
    let ghost s = state@;
    let ghost n = s.stack.len() as int;
    let ghost obj = s.stack[n - 2];
    let ghost key = s.stack[n - 1];
    let ghost rest = s.stack.take(n - 2);

    // The getter of the field.
    if state.type_of(REGISTRY_INDEX - 2) != LuaType::Nil {
        state.pushvalue(-1);
        if state.rawget(REGISTRY_INDEX - 2) != LuaType::Nil {
            let ghost getter = state@.stack.last();
            insert(state, -3);
            pop(state, 1);
            assert(state@ =~= s.with_stack(rest.push(getter).push(obj)));
            state.call(1, 1)?;
            return Ok(1);
        }
        pop(state, 1);
    }
    assert(state@ =~= s);

    // The method of that name.
    if state.type_of(REGISTRY_INDEX - 3) != LuaType::Nil {
        state.pushvalue(-1);
        if state.rawget(REGISTRY_INDEX - 3) != LuaType::Nil {
            let ghost method = state@.stack.last();
            insert(state, -3);
            pop(state, 2);
            assert(state@ =~= s.with_stack(rest.push(method)));
            return Ok(1);
        }
        pop(state, 1);
    }
    assert(state@ =~= s);

    // The original `__index`.
    state.pushvalue(REGISTRY_INDEX - 1);
    match state.type_of(-1) {
        LuaType::Nil => {
            pop(state, 1);
            assert(state@ =~= s);
            let field = state.tostring(-1)?;
            let msg = message("attempt to get an unknown field '", field);
            return Err(state.raise(msg.as_slice()));
        },
        LuaType::Table => {
            insert(state, -2);
            assert(state@ =~= s.with_stack(rest.push(obj).push(s.upvalues[0]).push(key)));
            state.gettable(-2)?;
        },
        _ => {
            insert(state, -3);
            assert(state@ =~= s.with_stack(rest.push(s.upvalues[0]).push(obj).push(key)));
            state.call(2, 1)?;
        },
    }
    Ok(1)
}

/// What `meta_newindex_impl` does on the frame `self, key, value`, with the bound values
/// `__newindex` and `field_setters`: it calls the setter of the key, or else leaves the
/// assignment to the original `__newindex`.
pub open spec fn meta_newindex<O>(s0: State<O>) -> (State<O>, Result<i32, Raised>) {
    let s = s0.grown(2);
    let n = s.stack.len() as int;
    let obj = s.stack[n - 3];
    let key = s.stack[n - 2];
    let value = s.stack[n - 1];
    let rest = s.stack.take(n - 3);
    let newindex = s.upvalues[0];
    let setter = lookup(s, s.upvalues[1], key);
    if !s0.grows(2) {
        overflowed(s, None)
    } else if !(setter is Nil) {
        finish(s.with_stack(rest.push(setter).push(obj).push(value)).call(2, 0), 0)
    } else if newindex is Nil {
        unknown_field(s, -2, "attempt to set an unknown field '"@)
    } else if newindex is Table {
        finish(
            settable(
                s.with_stack(rest.push(obj).push(newindex).push(key).push(value)),
                newindex->Table_0,
            ),
            0,
        )
    } else {
        finish(
            s.with_stack(rest.push(newindex).push(obj).push(key).push(value)).call(3, 0),
            0,
        )
    }
}

/// The `__newindex` metamethod of userdata.
pub fn meta_newindex_impl<L: Lua>(state: &mut L) -> (r: Result<i32, Raised>)
    requires
        old(state)@.wf(),
        old(state)@.stack.len() >= 3,
        old(state)@.upvalues.len() == 2,
        is_handler(old(state)@.upvalues[0]),
        old(state)@.upvalues[0] matches Value::Table(t) ==> old(state)@.heap.tables.contains_key(
            t,
        ),
        old(state)@.upvalues[1] is Table,
    ensures
        (final(state)@, r) == meta_newindex(old(state)@),
{
    state.checkstack_or_raise(2, None)?;
    let ghost s = state@;
    let ghost n = s.stack.len() as int;
    let ghost obj = s.stack[n - 3];
    let ghost key = s.stack[n - 2];
    let ghost value = s.stack[n - 1];
    let ghost rest = s.stack.take(n - 3);

    // The setter of the field.
    state.pushvalue(-2);
    if state.rawget(REGISTRY_INDEX - 2) != LuaType::Nil {
        let ghost setter = state@.stack.last();
        remove(state, -3);
        insert(state, -3);
        assert(state@ =~= s.with_stack(rest.push(setter).push(obj).push(value)));
        state.call(2, 0)?;
        return Ok(0);
    }
    pop(state, 1);
    assert(state@ =~= s);

    // The original `__newindex`.
    state.pushvalue(REGISTRY_INDEX - 1);
    match state.type_of(-1) {
        LuaType::Nil => {
            pop(state, 1);
            assert(state@ =~= s);
            let field = state.tostring(-2)?;
            let msg = message("attempt to set an unknown field '", field);
            return Err(state.raise(msg.as_slice()));
        },
        LuaType::Table => {
            insert(state, -3);
            assert(state@ =~= s.with_stack(
                rest.push(obj).push(s.upvalues[0]).push(key).push(value),
            ));
            state.settable(-3)?;
        },
        _ => {
            insert(state, -4);
            assert(state@ =~= s.with_stack(
                rest.push(s.upvalues[0]).push(obj).push(key).push(value),
            ));
            state.call(3, 0)?;
        },
    }
    Ok(0)
}

} // verus!

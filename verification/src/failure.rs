//! Errors that come out of the interpreter, and host failures that travel through it.

use vstd::prelude::*;

use crate::api::tolstring;
use crate::api::traceback;
use crate::api::CFn;
use crate::api::Lua;
use crate::lemmas::lemma_payload_wf;
use crate::stack::pop;
use crate::stack::remove;
use crate::state::known;
use crate::state::State;
use crate::text::address_text;
use crate::text::bracketed;
use crate::text::decimal;
use crate::text::decimal_text;
use crate::text::ends;
use crate::text::ends_with;
use crate::text::text_of;
use crate::text_laws::law_syntax_error;
use crate::text::utf8_lossy;
use crate::value::CFunction;
use crate::value::Error;
use crate::value::ErrorModel;
use crate::value::Failed;
use crate::value::Failure;
use crate::value::FailureModel;
use crate::value::LuaType;
use crate::value::Payload;
use crate::value::PayloadModel;
use crate::value::Pointer;
use crate::value::Raised;
use crate::value::Status;
use crate::value::TypeKey;
use crate::value::Value;
use crate::value::WrappedFailure;
use crate::value::FAILURE_KEY;
use crate::value::REGISTRY_INDEX;
use crate::value::TRACEBACK_STACK;

verus! {

/// The text that shows what `idx` names. A number that reads as an integer is shown as that
/// integer, and any other as a floating point number.
pub open spec fn value_text<O>(s: State<O>, idx: int) -> Seq<char> {
    match s.tag(idx) {
        LuaType::Absent => "<none>"@,
        LuaType::Nil => "<nil>"@,
        LuaType::Boolean => if s.at(idx).truthy() {
            "true"@
        } else {
            "false"@
        },
        LuaType::LightUserdata => pointer_text(s, idx, "lightuserdata"@),
        LuaType::Number => match s.env.integer(s.at(idx)) {
            Some(i) => decimal_text(i as int),
            None => s.env.number_text(s.at(idx)),
        },
        LuaType::Str => text_of(s.at(idx)->Str_0),
        LuaType::Table => pointer_text(s, idx, "table"@),
        LuaType::Function => pointer_text(s, idx, "function"@),
        LuaType::Userdata => pointer_text(s, idx, "userdata"@),
        LuaType::Thread => pointer_text(s, idx, "thread"@),
        LuaType::Other => "<unknown>"@,
    }
}

/// The kind of a value and its address.
pub open spec fn pointer_text<O>(s: State<O>, idx: int, kind: Seq<char>) -> Seq<char> {
    "<"@ + kind + " "@ + address_text(s.env.address(s.at(idx))) + ">"@
}

/// Shows the value at `index` in a readable form, without raising an error.
pub fn to_string<L: Lua>(state: &L, index: i32) -> (r: String)
    requires
        state@.wf(),
        index != 0,
    ensures
        r@ == value_text(state@, index as int),
{
    match state.type_of(index) {
        LuaType::Absent => "<none>".to_owned(),
        LuaType::Nil => "<nil>".to_owned(),
        LuaType::Boolean => {
            if state.toboolean(index) {
                "true".to_owned()
            } else {
                "false".to_owned()
            }
        },
        LuaType::LightUserdata => bracketed("lightuserdata", state.topointer(index)),
        LuaType::Number => {
            match state.tointegerx(index) {
                Some(i) => decimal(i),
                None => state.number_text(index),
            }
        },
        LuaType::Str => utf8_lossy(state.string(index).as_slice()),
        LuaType::Table => bracketed("table", state.topointer(index)),
        LuaType::Function => bracketed("function", state.topointer(index)),
        LuaType::Userdata => bracketed("userdata", state.topointer(index)),
        LuaType::Thread => bracketed("thread", state.topointer(index)),
        LuaType::Other => "<unknown>".to_owned(),
    }
}

/// Pushes the metatable that is registered for the type `key`.
pub fn get_gc_metatable<L: Lua>(state: &mut L, key: TypeKey)
    requires
        old(state)@.wf(),
        old(state)@.heap.cached.contains(key),
        old(state)@.spare() >= 1,
    ensures
        final(state)@ == old(state)@.push(
            old(state)@.heap.registered(Pointer::GcMetatable(key)),
        ),
{
    state.rawgetp(REGISTRY_INDEX, Pointer::GcMetatable(key));
}

/// The block of the userdata at `index`, if it carries the metatable that is registered for the
/// type `key`.
///
/// Uses two stack slots.
pub fn get_gc_userdata<L: Lua>(state: &mut L, index: i32, key: TypeKey) -> (r: Option<u64>)
    requires
        old(state)@.wf(),
        index != 0,
        old(state)@.valid(index as int) ==> old(state)@.tells(old(state)@.at(index as int), key),
        old(state)@.spare() >= 2,
    ensures
        r == if old(state)@.valid(index as int) {
            old(state)@.heap.gc_userdata(old(state)@.at(index as int), key)
        } else {
            None
        },
        final(state)@ == old(state)@,
{
    let ud: u64 = match state.touserdata(index) {
        Some(ud) => ud,
        None => {
            return None;
        },
    };
    if !state.getmetatable(index) {
        return None;
    }
    get_gc_metatable(state, key);
    let res = state.rawequal(-1, -2);
    pop(state, 2);
    assert(state@ =~= old(state)@);
    if !res {
        return None;
    }
    Some(ud)
}

/// The error that stands for a call that failed with `status` and a message.
pub open spec fn status_error(status: Status, message: Seq<char>) -> ErrorModel {
    match status {
        Status::ErrSyntax => ErrorModel::SyntaxError {
            message,
            incomplete_input: ends(message, "<eof>"@) || ends(message, "'<eof>'"@),
        },
        Status::ErrMem => ErrorModel::MemoryError(message),
        Status::ErrGcmm => ErrorModel::GarbageCollectorError(message),
        _ => ErrorModel::RuntimeError(message),
    }
}

/// What `pop_error` makes of the state, and what it returns.
pub open spec fn popped<O>(s: State<O>, status: Status) -> (State<O>, Failed) {
    let v = s.stack.last();
    match s.heap.failure(v) {
        Some(FailureModel::Error(e)) => (s.pop(1), Failed::Error(e)),
        Some(FailureModel::Panic(Some(p))) => (
            s.with_heap(
                s.heap.with_payload(
                    v->Userdata_0,
                    PayloadModel::Failure(FailureModel::Panic(None)),
                ),
            ),
            Failed::Panic(p),
        ),
        Some(FailureModel::Panic(None)) => (
            s.pop(1),
            Failed::Error(ErrorModel::PreviouslyResumedPanic),
        ),
        None => (s.pop(1), Failed::Error(status_error(status, value_text(s, -1)))),
    }
}

/// Pops an error off the stack and returns it:
///
/// 1. the panic to resume, if the value on top wraps one; that value stays where it is, with
///    the panic taken out of it;
/// 2. the host error, if the value on top wraps one;
/// 3. else the error that `status` and the value on top stand for.
///
/// Uses two stack slots.
pub fn pop_error<L: Lua>(state: &mut L, status: Status) -> (r: Failure)
    requires
        old(state)@.wf(),
        old(state)@.stack.len() >= 1,
        old(state)@.spare() >= 2,
        old(state)@.tells(old(state)@.stack.last(), FAILURE_KEY),
        status != Status::Success && status != Status::Yield,
        old(state)@.heap.failure(old(state)@.stack.last()) is None ==> known(
            status,
            old(state)@.env.version,
        ),
    ensures
        (final(state)@, r@) == popped(old(state)@, status),
        forall|text: Seq<char>|
            status == Status::ErrSyntax && old(state)@.stack.last() == Value::Str(
                #[trigger] vstd::utf8::encode_utf8(text),
            ) ==> r@ == Failed::Error(
                ErrorModel::SyntaxError {
                    message: text,
                    incomplete_input: {
                        ||| exists|head: Seq<char>| text == #[trigger] (head + "<eof>"@)
                        ||| exists|head: Seq<char>| text == #[trigger] (head + "'<eof>'"@)
                    },
                },
            ),
        final(state)@.wf(),
{
    proof {
        assert forall|text: Seq<char>|
            status == Status::ErrSyntax && state@.stack.last() == Value::Str(
                #[trigger] vstd::utf8::encode_utf8(text),
            ) implies popped(state@, status).1 == Failed::Error(
            ErrorModel::SyntaxError {
                message: text,
                incomplete_input: {
                    ||| exists|head: Seq<char>| text == #[trigger] (head + "<eof>"@)
                    ||| exists|head: Seq<char>| text == #[trigger] (head + "'<eof>'"@)
                },
            },
        ) by {
            law_syntax_error(state@, text);
        }
    }
    match get_gc_userdata(state, -1, FAILURE_KEY) {
        Some(ud) => {
            match state.payload(ud) {
                Payload::Failure(WrappedFailure::Error(err)) => {
                    let e = err.clone();
                    pop(state, 1);
                    return Failure::Error(e);
                },
                _ => {},
            }
            match state.take_payload(ud) {
                Payload::Failure(WrappedFailure::Panic(Some(p))) => {
                    state.put_payload(ud, Payload::Failure(WrappedFailure::Panic(None)));
                    assert(state@.heap.userdata =~= old(state)@.heap.with_payload(
                        ud,
                        PayloadModel::Failure(FailureModel::Panic(None)),
                    ).userdata);
                    proof {
                        lemma_payload_wf(
                            old(state)@.heap,
                            ud,
                            PayloadModel::Failure(FailureModel::Panic(None)),
                        );
                    }
                    Failure::Panic(p)
                },
                payload => {
                    state.put_payload(ud, payload);
                    assert(state@.heap.userdata =~= old(state)@.heap.userdata);
                    pop(state, 1);
                    Failure::Error(Error::PreviouslyResumedPanic)
                },
            }
        },
        None => {
            let err_string = to_string(state, -1);
            pop(state, 1);
            Failure::Error(
                match status {
                    Status::ErrSyntax => Error::SyntaxError {
                        incomplete_input: ends_with(err_string.as_str(), "<eof>") || ends_with(
                            err_string.as_str(),
                            "'<eof>'",
                        ),
                        message: err_string,
                    },
                    Status::ErrMem => Error::MemoryError(err_string),
                    Status::ErrGcmm => Error::GarbageCollectorError(err_string),
                    _ => Error::RuntimeError(err_string),
                },
            )
        },
    }
}

/// What `error_traceback` does.
pub open spec fn with_traceback<O>(s: State<O>) -> (State<O>, Result<(i32, ()), Raised>) {
    let s1 = s.grown(2);
    if !s.grows(2) || s1.heap.gc_userdata(s1.stack.last(), FAILURE_KEY) is Some {
        (s1, Ok((1, ())))
    } else {
        let (s2, r2) = tolstring(s1, s1.stack.last());
        let s3 = s2.grown(TRACEBACK_STACK as int);
        match r2 {
            Err(e) => (s2, Err(e)),
            Ok(_) => if !s2.grows(TRACEBACK_STACK as int) {
                (s3, Ok((1, ())))
            } else {
                let (s4, r4) = traceback(s3, Some(s3.stack.last()->Str_0), 1);
                match r4 {
                    Err(e) => (s4, Err(e)),
                    Ok(_) => (
                        s4.with_stack(s.stack.push(s4.stack.last())),
                        Ok((1, ())),
                    ),
                }
            },
        }
    }
}

/// The message handler of protected calls: turns the error on top into its text with a
/// traceback, and leaves a host failure alone.
pub struct ErrorTraceback;

impl<L: Lua> CFn<L> for ErrorTraceback {
    type Value = ();

    open spec fn function(&self) -> CFunction {
        CFunction::ErrorTraceback
    }

    open spec fn accepts(&self, s: State<L::Object>) -> bool {
        s.stack.len() >= 1 && s.tells(s.stack.last(), FAILURE_KEY)
    }

    open spec fn effect(&self, s: State<L::Object>) -> (
        State<L::Object>,
        Result<(i32, ()), Raised>,
    ) {
        with_traceback(s)
    }

    fn run(self, state: &mut L) -> (r: Result<(i32, ()), Raised>) {
        match error_traceback(state) {
            Ok(n) => Ok((n, ())),
            Err(e) => Err(e),
        }
    }
}

/// Turns the error on top of the stack into its text with a traceback. A host failure is left
/// as it is, and so is every error when there is no stack space to tell one from the other.
pub fn error_traceback<L: Lua>(state: &mut L) -> (r: Result<i32, Raised>)
    requires
        old(state)@.wf(),
        old(state)@.stack.len() >= 1,
        old(state)@.tells(old(state)@.stack.last(), FAILURE_KEY),
    ensures
        final(state)@ == with_traceback(old(state)@).0,
        match with_traceback(old(state)@).1 {
            Ok((n, _)) => r == Ok::<i32, Raised>(n),
            Err(e) => r == Err::<i32, Raised>(e),
        },
        final(state)@.wf(),
        old(state)@.ready() ==> final(state)@.ready(),
        final(state)@.env == old(state)@.env,
        r matches Ok(n) ==> 0 <= n <= final(state)@.stack.len(),
        r matches Err(e) ==> known(e.status, old(state)@.env.version),
{
    if !state.checkstack(2) {
        // Without the space to tell what the error is, a host panic could be shadowed.
        return Ok(1);
    }
    if get_gc_userdata(state, -1, FAILURE_KEY).is_none() {
        state.tolstring(-1)?;
        if state.checkstack(TRACEBACK_STACK) {
            let s = state.string(-1);
            state.traceback(Some(s.as_slice()), 1)?;
            let ghost t = state@;
            remove(state, -2);
            assert(state@.stack =~= old(state)@.stack.push(t.stack.last()));
        }
    }
    Ok(1)
}

} // verus!

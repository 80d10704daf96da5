use mlua_util::api::Lua;
use mlua_util::callback::callback_error;
use mlua_util::callback::Callback;
use mlua_util::callback::Ending;
use mlua_util::callback::EndingModel;
use mlua_util::failure::pop_error;
use mlua_util::machine::Asked;
use mlua_util::machine::Machine;
use mlua_util::registry::destructed_error;
use mlua_util::registry::error_tostring;
use mlua_util::registry::init_error_registry;
use mlua_util::slot::Slot;
use mlua_util::state::State;
use mlua_util::userdata::push_gc_userdata;
use mlua_util::value::Error;
use mlua_util::value::Failure;
use mlua_util::value::LuaVersion;
use mlua_util::value::PanicPayload;
use mlua_util::value::Payload;
use mlua_util::value::Status;
use mlua_util::value::WrappedFailure;
use mlua_util::value::FAILURE_KEY;

fn machine() -> Machine<u32> {
    let mut m = Machine::new(LuaVersion::Lua54, 1000);
    init_error_registry(&mut m).unwrap();
    m
}

fn string(s: &str) -> Slot {
    Slot::Str(s.as_bytes().to_vec())
}

/// Ends as it is told to. Where it returns, it turns the number of its arguments into a result.
enum Work {
    Return,
    Fail,
    Panic,
}

impl Callback<Machine<u32>> for Work {
    type Value = i32;

    fn accepts(&self, _: State<u32>) -> bool {
        unreachable!()
    }

    fn effect(&self, _: State<u32>) -> (State<u32>, EndingModel<i32>) {
        unreachable!()
    }

    fn run(self, state: &mut Machine<u32>, nargs: i32) -> Ending<i32> {
        assert_eq!(state.gettop(), nargs + 1);
        match self {
            Work::Return => {
                state.push(Slot::Integer(nargs as i64));
                Ending::Returned(1)
            }
            Work::Fail => Ending::Failed(Error::External(9)),
            Work::Panic => Ending::Panicked(PanicPayload::Literal("oh".to_string())),
        }
    }
}

#[test]
fn callback_result_is_left_on_the_arguments() {
    let mut m = machine();
    m.push(Slot::Boolean(true));
    m.push(Slot::Nil);
    assert_eq!(callback_error(&mut m, Work::Return), Ok(1));
    assert_eq!(m.gettop(), 3);
    assert_eq!(m.value(1), Slot::Boolean(true));
    assert_eq!(m.value(2), Slot::Nil);
    assert_eq!(m.value(3), Slot::Integer(2));
}

#[test]
fn callback_error_is_returned_as_a_cause() {
    let mut m = machine();
    m.push(Slot::Nil);
    m.expect_text(b"stack traceback:".to_vec());
    let raised = callback_error(&mut m, Work::Fail).unwrap_err();
    assert_eq!(raised.status, Status::ErrRun);
    let object = m.in_flight();
    m.push(object);
    match pop_error(&mut m, raised.status) {
        Failure::Error(Error::CallbackError { traceback, cause }) => {
            assert_eq!(traceback, "stack traceback:");
            assert!(matches!(*cause, Error::External(9)));
            assert!(matches!(m.asked_for(0), Asked::Traceback(0)));
        }
        e => panic!("{:?}", e),
    }
}

#[test]
fn callback_panic_is_resumed() {
    let mut m = machine();
    let raised = callback_error(&mut m, Work::Panic).unwrap_err();
    assert_eq!(raised.status, Status::ErrRun);
    let object = m.in_flight();
    m.push(object.clone());
    match pop_error(&mut m, raised.status) {
        Failure::Panic(PanicPayload::Literal(s)) => assert_eq!(s, "oh"),
        e => panic!("{:?}", e),
    }
    m.push(object);
    assert!(matches!(
        pop_error(&mut m, raised.status),
        Failure::Error(Error::PreviouslyResumedPanic)
    ));
}

#[test]
fn callback_memory_is_set_aside_first() {
    let mut m = machine();
    m.limit_memory(0);
    let raised = callback_error(&mut m, Work::Panic).unwrap_err();
    assert_eq!(raised.status, Status::ErrMem);
    assert_eq!(m.in_flight(), string("not enough memory"));
}

#[test]
fn callback_without_memory_for_a_traceback() {
    let mut m = machine();
    m.limit_memory(1);
    let raised = callback_error(&mut m, Work::Fail).unwrap_err();
    assert_eq!(raised.status, Status::ErrMem);
}

#[test]
fn callback_without_stack_space() {
    let mut m = machine();
    assert!(m.checkstack(1_000_000));
    for _ in 0..1_000_000 {
        m.push(Slot::Nil);
    }
    m.expect_text(b"at: ".to_vec());
    let raised = callback_error(&mut m, Work::Return).unwrap_err();
    assert_eq!(raised.status, Status::ErrRun);
    assert_eq!(
        m.in_flight(),
        string("at: stack overflow (not enough stack space for callback error handling)")
    );
}

#[test]
fn callback_without_memory_for_its_slots() {
    let mut m = machine();
    for _ in 0..20 {
        m.push(Slot::Nil);
    }
    m.limit_memory(0);
    let raised = callback_error(&mut m, Work::Return).unwrap_err();
    assert_eq!(raised.status, Status::ErrMem);
    assert_eq!(m.in_flight(), string("not enough memory"));
}

#[test]
fn callback_that_succeeds_needs_no_error_registry() {
    let mut m: Machine<u32> = Machine::new(LuaVersion::Lua54, 10);
    m.push(Slot::Nil);
    assert_eq!(callback_error(&mut m, Work::Return), Ok(1));
    assert_eq!(m.gettop(), 2);
    assert_eq!(m.value(2), Slot::Integer(1));
}

#[test]
fn error_text_with_its_source() {
    let mut m = machine();
    let wrapped = WrappedFailure::Error(Error::External(1));
    push_gc_userdata(&mut m, Payload::Failure(wrapped), FAILURE_KEY).unwrap();
    let texts = vec!["outer".to_string(), "inner".to_string()];
    assert_eq!(error_tostring(&mut m, texts), Ok(1));
    assert_eq!(m.gettop(), 1);
    assert_eq!(m.value(-1), string("outer\ncaused by: inner"));
}

#[test]
fn panic_text_of_a_failure() {
    let mut m = machine();
    let wrapped = WrappedFailure::Panic(Some(PanicPayload::Message("bad".to_string())));
    push_gc_userdata(&mut m, Payload::Failure(wrapped), FAILURE_KEY).unwrap();
    assert_eq!(error_tostring(&mut m, vec![String::new()]), Ok(1));
    assert_eq!(m.value(-1), string("bad"));
}

fn tostring_failure(m: &mut Machine<u32>) -> Error {
    let raised = error_tostring(m, vec![String::new()]).unwrap_err();
    let object = m.in_flight();
    m.push(object);
    match pop_error(m, raised.status) {
        Failure::Error(Error::CallbackError { cause, .. }) => *cause,
        e => panic!("{:?}", e),
    }
}

#[test]
fn text_of_a_resumed_panic_is_an_error() {
    let mut m = machine();
    push_gc_userdata(&mut m, Payload::Failure(WrappedFailure::Panic(None)), FAILURE_KEY).unwrap();
    assert!(matches!(tostring_failure(&mut m), Error::PreviouslyResumedPanic));
}

#[test]
fn text_of_something_else_is_an_error() {
    let mut m = machine();
    m.push(Slot::Integer(1));
    assert!(matches!(tostring_failure(&mut m), Error::UserDataTypeMismatch));
}

#[test]
fn metamethods_of_destructed_userdata_fail() {
    let mut m = machine();
    m.push(Slot::Nil);
    let raised = destructed_error(&mut m).unwrap_err();
    let object = m.in_flight();
    m.push(object);
    match pop_error(&mut m, raised.status) {
        Failure::Error(Error::CallbackError { cause, .. }) => {
            assert!(matches!(*cause, Error::CallbackDestructed))
        }
        e => panic!("{:?}", e),
    }
}

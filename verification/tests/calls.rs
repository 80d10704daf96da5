use mlua_util::api::Lua;
use mlua_util::calls::get_main_state;
use mlua_util::calls::safe_pcall;
use mlua_util::calls::safe_xpcall;
use mlua_util::calls::xpcall_msgh;
use mlua_util::machine::Answer;
use mlua_util::machine::Asked;
use mlua_util::machine::Machine;
use mlua_util::registry::init_error_registry;
use mlua_util::slot::Slot;
use mlua_util::userdata::push_gc_userdata;
use mlua_util::value::CFunction;
use mlua_util::value::Error;
use mlua_util::value::LuaVersion;
use mlua_util::value::PanicPayload;
use mlua_util::value::Payload;
use mlua_util::value::Status;
use mlua_util::value::WrappedFailure;
use mlua_util::value::FAILURE_KEY;

fn machine(version: LuaVersion) -> Machine<u32> {
    let mut m = Machine::new(version, 1000);
    init_error_registry(&mut m).unwrap();
    m
}

fn string(s: &str) -> Slot {
    Slot::Str(s.as_bytes().to_vec())
}

/// A failure object that is not on the stack.
fn failure(m: &mut Machine<u32>, w: WrappedFailure) -> Slot {
    push_gc_userdata(m, Payload::Failure(w), FAILURE_KEY).unwrap();
    let v = m.value(-1);
    m.settop(-2);
    v
}

fn panic_object(m: &mut Machine<u32>) -> Slot {
    failure(m, WrappedFailure::Panic(Some(PanicPayload::Opaque(1))))
}

const FUNCTION: Slot = Slot::CFunction(CFunction::Host(1));
const HANDLER: Slot = Slot::CFunction(CFunction::Host(2));

/// The call `i` was one of `f` with `args`.
fn called(m: &Machine<u32>, i: usize, f: &Slot, args: &[Slot]) -> bool {
    matches!(m.asked_for(i), Asked::Function(g, a) if g == f && a.as_slice() == args)
}

#[test]
fn pcall_hands_out_results() {
    let mut m = machine(LuaVersion::Lua54);
    m.push(FUNCTION);
    m.push(Slot::Integer(1));
    m.expect(Answer::Returns(vec![Slot::Integer(7), Slot::Nil]));
    assert_eq!(safe_pcall(&mut m), Ok(3));
    assert_eq!(m.gettop(), 3);
    assert_eq!(m.value(1), Slot::Boolean(true));
    assert_eq!(m.value(2), Slot::Integer(7));
    assert_eq!(m.value(3), Slot::Nil);
    assert_eq!(m.asked(), 1);
    assert!(called(&m, 0, &FUNCTION, &[Slot::Integer(1)]));
}

#[test]
fn pcall_catches_errors() {
    let mut m = machine(LuaVersion::Lua54);
    let host_error = failure(&mut m, WrappedFailure::Error(Error::External(1)));
    for v in [string("no"), host_error] {
        m.settop(0);
        m.push(FUNCTION);
        m.expect(Answer::Raises(Status::ErrRun, v.clone()));
        assert_eq!(safe_pcall(&mut m), Ok(2));
        assert_eq!(m.gettop(), 2);
        assert_eq!(m.value(1), Slot::Boolean(false));
        assert_eq!(m.value(2), v);
    }
}

#[test]
fn pcall_lets_panics_through() {
    let mut m = machine(LuaVersion::Lua54);
    let live = panic_object(&mut m);
    let resumed = failure(&mut m, WrappedFailure::Panic(None));
    for v in [live, resumed] {
        m.settop(0);
        m.push(FUNCTION);
        m.expect(Answer::Raises(Status::ErrRun, v.clone()));
        assert_eq!(safe_pcall(&mut m).unwrap_err().status, Status::ErrRun);
        assert_eq!(m.in_flight(), v);
    }
}

#[test]
fn pcall_of_plain_errors_needs_no_error_registry() {
    let mut m: Machine<u32> = Machine::new(LuaVersion::Lua54, 10);
    m.push(FUNCTION);
    m.expect(Answer::Raises(Status::ErrRun, string("no")));
    assert_eq!(safe_pcall(&mut m), Ok(2));
    assert_eq!(m.value(2), string("no"));
    m.settop(0);
    m.push(FUNCTION);
    m.push(HANDLER);
    m.expect(Answer::Raises(Status::ErrRun, string("no")));
    m.expect(Answer::Returns(vec![string("handled")]));
    assert_eq!(safe_xpcall(&mut m), Ok(2));
    assert_eq!(m.value(-1), string("handled"));
}

#[test]
fn pcall_needs_a_function() {
    let mut m = machine(LuaVersion::Lua54);
    assert_eq!(safe_pcall(&mut m).unwrap_err().status, Status::ErrRun);
    assert_eq!(m.in_flight(), string("not enough arguments to pcall"));
}

#[test]
fn xpcall_hands_out_results() {
    let mut m = machine(LuaVersion::Lua54);
    m.push(FUNCTION);
    m.push(HANDLER);
    m.push(Slot::Integer(1));
    m.expect(Answer::Returns(vec![Slot::Integer(7), Slot::Integer(8)]));
    assert_eq!(safe_xpcall(&mut m), Ok(3));
    let top = m.gettop();
    assert_eq!(m.value(top - 2), Slot::Boolean(true));
    assert_eq!(m.value(top - 1), Slot::Integer(7));
    assert_eq!(m.value(top), Slot::Integer(8));
    assert_eq!(m.asked(), 1);
    assert!(called(&m, 0, &FUNCTION, &[Slot::Integer(1)]));
}

#[test]
fn xpcall_asks_the_handler() {
    let mut m = machine(LuaVersion::Lua54);
    m.push(FUNCTION);
    m.push(HANDLER);
    m.expect(Answer::Raises(Status::ErrRun, string("no")));
    m.expect(Answer::Returns(vec![string("handled")]));
    assert_eq!(safe_xpcall(&mut m), Ok(2));
    assert_eq!(m.value(-2), Slot::Boolean(false));
    assert_eq!(m.value(-1), string("handled"));
    assert_eq!(m.asked(), 2);
    assert!(called(&m, 0, &FUNCTION, &[]));
    assert!(called(&m, 1, &HANDLER, &[string("no")]));
}

#[test]
fn xpcall_lets_panics_through() {
    let mut m = machine(LuaVersion::Lua54);
    let v = panic_object(&mut m);
    m.push(FUNCTION);
    m.push(HANDLER);
    m.expect(Answer::Raises(Status::ErrRun, v.clone()));
    m.expect(Answer::Returns(vec![string("handled")]));
    assert_eq!(safe_xpcall(&mut m).unwrap_err().status, Status::ErrRun);
    assert_eq!(m.in_flight(), v);
    assert_eq!(m.asked(), 1);
}

#[test]
fn xpcall_needs_a_function_and_a_handler() {
    let mut m = machine(LuaVersion::Lua54);
    m.push(FUNCTION);
    assert_eq!(safe_xpcall(&mut m).unwrap_err().status, Status::ErrRun);
    assert_eq!(m.in_flight(), string("not enough arguments to xpcall"));
}

#[test]
fn xpcall_without_memory_for_its_handler() {
    let mut m = machine(LuaVersion::Lua54);
    m.push(FUNCTION);
    m.push(HANDLER);
    m.limit_memory(0);
    assert_eq!(safe_xpcall(&mut m).unwrap_err().status, Status::ErrMem);
    assert_eq!(m.in_flight(), string("not enough memory"));
}

#[test]
fn message_handler_hands_a_panic_back() {
    let mut m = machine(LuaVersion::Lua54);
    let v = panic_object(&mut m);
    m.bind(vec![HANDLER]);
    m.push(v.clone());
    assert_eq!(xpcall_msgh(&mut m), Ok(1));
    assert_eq!(m.value(-1), v);
}

#[test]
fn message_handler_calls_the_bound_one() {
    let mut m = machine(LuaVersion::Lua54);
    m.bind(vec![HANDLER]);
    m.push(string("no"));
    m.expect(Answer::Returns(vec![Slot::Integer(1), Slot::Integer(2)]));
    assert_eq!(xpcall_msgh(&mut m), Ok(2));
    assert_eq!(m.value(1), Slot::Integer(1));
    assert_eq!(m.value(2), Slot::Integer(2));
}

#[test]
fn main_thread_comes_from_the_registry() {
    let mut m = machine(LuaVersion::Lua52);
    m.run_thread(9, false);
    assert_eq!(get_main_state(&mut m), Some(Some(1)));
    assert_eq!(m.gettop(), 0);
}

#[test]
fn main_thread_before_it_was_registered() {
    let mut m = machine(LuaVersion::Lua51);
    assert_eq!(get_main_state(&mut m), Some(Some(1)));
    m.run_thread(9, false);
    assert_eq!(get_main_state(&mut m), None);
    m.run_thread(9, true);
    assert_eq!(get_main_state(&mut m), Some(Some(9)));
    assert_eq!(m.gettop(), 0);
}

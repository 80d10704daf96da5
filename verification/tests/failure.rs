use mlua_util::api::Lua;
use mlua_util::failure::error_traceback;
use mlua_util::failure::get_gc_metatable;
use mlua_util::failure::get_gc_userdata;
use mlua_util::failure::pop_error;
use mlua_util::failure::to_string;
use mlua_util::machine::Answer;
use mlua_util::machine::Asked;
use mlua_util::machine::Machine;
use mlua_util::registry::init_error_registry;
use mlua_util::slot::Slot;
use mlua_util::userdata::push_gc_userdata;
use mlua_util::userdata::push_table;
use mlua_util::userdata::rawset_field;
use mlua_util::value::CFunction;
use mlua_util::value::Error;
use mlua_util::value::Failure;
use mlua_util::value::LuaVersion;
use mlua_util::value::PanicPayload;
use mlua_util::value::Payload;
use mlua_util::value::Pointer;
use mlua_util::value::Status;
use mlua_util::value::WrappedFailure;
use mlua_util::value::FAILURE_KEY;
use mlua_util::value::REGISTRY_INDEX;
use mlua_util::value::TEXT_KEY;

fn machine(version: LuaVersion) -> Machine<u32> {
    let mut m = Machine::new(version, 1000);
    init_error_registry(&mut m).unwrap();
    m
}

fn shown(m: &mut Machine<u32>, v: Slot) -> String {
    m.push(v);
    to_string(m, -1)
}

fn string(s: &str) -> Slot {
    Slot::Str(s.as_bytes().to_vec())
}

#[test]
fn texts_of_values() {
    let mut m = machine(LuaVersion::Lua54);
    assert_eq!(to_string(&m, 1), "<none>");
    assert_eq!(shown(&mut m, Slot::Nil), "<nil>");
    assert_eq!(shown(&mut m, Slot::Boolean(true)), "true");
    assert_eq!(shown(&mut m, Slot::Boolean(false)), "false");
    assert_eq!(shown(&mut m, Slot::Integer(-5)), "-5");
    assert_eq!(shown(&mut m, Slot::Table(0x2a)), "<table 0x2a>");
    assert_eq!(shown(&mut m, Slot::Closure(16)), "<function 0x10>");
    assert_eq!(shown(&mut m, Slot::Userdata(255)), "<userdata 0xff>");
    assert_eq!(shown(&mut m, Slot::Thread(1)), "<thread 0x1>");
    assert_eq!(shown(&mut m, Slot::Other(9)), "<unknown>");
    assert_eq!(shown(&mut m, Slot::LightUserdata(Pointer::Host(7))), "<lightuserdata 0x7>");
    m.set_address(Slot::CFunction(CFunction::DoCall), 0x100);
    assert_eq!(shown(&mut m, Slot::CFunction(CFunction::DoCall)), "<function 0x100>");
}

#[test]
fn texts_of_strings() {
    let mut m = machine(LuaVersion::Lua54);
    assert_eq!(shown(&mut m, string("héllo")), "héllo");
    assert_eq!(shown(&mut m, Slot::Str(vec![b'f', 0xff, b'o'])), "f\u{fffd}o");
}

#[test]
fn texts_of_numbers() {
    let mut m = machine(LuaVersion::Lua54);
    let half = Slot::Number { text: "0.5".to_string(), whole: None };
    assert_eq!(shown(&mut m, half), "0.5");
    let three = Slot::Number { text: "3".to_string(), whole: Some(3) };
    assert_eq!(shown(&mut m, three), "3");
    assert_eq!(to_string(&m, 1), "0.5");
}

#[test]
fn texts_go_by_the_index() {
    let mut m = machine(LuaVersion::Lua54);
    m.push(Slot::Boolean(true));
    m.push(Slot::Boolean(false));
    assert_eq!(to_string(&m, 1), "true");
    assert_eq!(to_string(&m, 2), "false");
    m.settop(0);
    m.push(Slot::Integer(1));
    m.push(Slot::Integer(2));
    assert_eq!(to_string(&m, 1), "1");
    assert_eq!(to_string(&m, -2), "1");
    m.settop(0);
    m.bind(vec![Slot::Integer(7)]);
    assert_eq!(to_string(&m, REGISTRY_INDEX - 1), "7");
    m.set_widened(7, "7".to_string());
    assert_eq!(m.number_text(REGISTRY_INDEX - 1), "7");
}

#[test]
fn boolean_error_keeps_its_value() {
    let mut m = machine(LuaVersion::Lua54);
    m.push(Slot::Boolean(true));
    assert!(matches!(
        pop_error(&mut m, Status::ErrRun),
        Failure::Error(Error::RuntimeError(s)) if s == "true"
    ));
}

#[test]
fn errors_of_each_status() {
    let mut m = machine(LuaVersion::Lua53);
    let mut error = |status: Status, message: &str| -> Error {
        m.push(string(message));
        match pop_error(&mut m, status) {
            Failure::Error(e) => {
                assert_eq!(m.gettop(), 0);
                e
            }
            Failure::Panic(_) => panic!("a panic"),
        }
    };
    assert!(matches!(error(Status::ErrRun, "a"), Error::RuntimeError(s) if s == "a"));
    assert!(matches!(error(Status::ErrErr, "b"), Error::RuntimeError(s) if s == "b"));
    assert!(matches!(error(Status::ErrMem, "c"), Error::MemoryError(s) if s == "c"));
    assert!(matches!(error(Status::ErrGcmm, "d"), Error::GarbageCollectorError(s) if s == "d"));
    assert!(matches!(
        error(Status::ErrSyntax, "e"),
        Error::SyntaxError { message, incomplete_input: false } if message == "e"
    ));
    assert!(matches!(
        error(Status::ErrSyntax, "near <eof>"),
        Error::SyntaxError { message, incomplete_input: true } if message == "near <eof>"
    ));
    assert!(matches!(
        error(Status::ErrSyntax, "near '<eof>'"),
        Error::SyntaxError { incomplete_input: true, .. }
    ));
}

#[test]
fn wrapped_error_is_returned() {
    let mut m = machine(LuaVersion::Lua54);
    let wrapped = WrappedFailure::Error(Error::External(42));
    push_gc_userdata(&mut m, Payload::Failure(wrapped), FAILURE_KEY).unwrap();
    assert!(matches!(pop_error(&mut m, Status::ErrRun), Failure::Error(Error::External(42))));
    assert_eq!(m.gettop(), 0);
}

#[test]
fn wrapped_panic_is_resumed_once() {
    let mut m = machine(LuaVersion::Lua54);
    let wrapped = WrappedFailure::Panic(Some(PanicPayload::Opaque(5)));
    push_gc_userdata(&mut m, Payload::Failure(wrapped), FAILURE_KEY).unwrap();
    assert!(matches!(
        pop_error(&mut m, Status::ErrRun),
        Failure::Panic(PanicPayload::Opaque(5))
    ));
    assert_eq!(m.gettop(), 1);
    assert!(matches!(
        pop_error(&mut m, Status::ErrRun),
        Failure::Error(Error::PreviouslyResumedPanic)
    ));
    assert_eq!(m.gettop(), 0);
}

#[test]
fn userdata_is_found_under_its_own_type_only() {
    let mut m = machine(LuaVersion::Lua54);
    push_gc_userdata(&mut m, Payload::Text("x".to_string()), TEXT_KEY).unwrap();
    let block = get_gc_userdata(&mut m, -1, TEXT_KEY).unwrap();
    assert_eq!(m.value(-1), Slot::Userdata(block));
    assert!(matches!(m.payload(block), Payload::Text(s) if s == "x"));
    assert_eq!(get_gc_userdata(&mut m, -1, FAILURE_KEY), None);
    m.push(Slot::Integer(1));
    assert_eq!(get_gc_userdata(&mut m, -1, TEXT_KEY), None);
    m.push(Slot::LightUserdata(Pointer::Host(block)));
    assert_eq!(get_gc_userdata(&mut m, -1, TEXT_KEY), None);
    assert_eq!(m.gettop(), 3);
    assert_eq!(get_gc_userdata(&mut m, 4, TEXT_KEY), None);
}

#[test]
fn registered_metatable_is_pushed() {
    let mut m = machine(LuaVersion::Lua54);
    get_gc_metatable(&mut m, FAILURE_KEY);
    let t = match m.value(-1) {
        Slot::Table(t) => t,
        v => panic!("not a table: {:?}", v),
    };
    assert_eq!(
        m.entry(t, &string("__tostring")),
        Slot::CFunction(CFunction::ErrorTostring)
    );
}

#[test]
fn traceback_follows_the_message() {
    let mut m = machine(LuaVersion::Lua54);
    m.push(string("oops"));
    m.expect_text(b"\nstack traceback:\n\t[C]".to_vec());
    assert_eq!(error_traceback(&mut m), Ok(1));
    assert_eq!(m.gettop(), 2);
    assert_eq!(m.value(-1), string("oops\nstack traceback:\n\t[C]"));
    assert_eq!(m.asked(), 1);
    assert!(matches!(m.asked_for(0), Asked::Traceback(1)));
}

#[test]
fn traceback_cuts_the_message_at_a_zero_byte() {
    let mut m = machine(LuaVersion::Lua54);
    m.push(string("oo\0ps"));
    m.expect_text(b" at".to_vec());
    assert_eq!(error_traceback(&mut m), Ok(1));
    assert_eq!(m.value(-1), string("oo at"));
}

#[test]
fn traceback_asks_the_metamethod_of_strings() {
    let mut m = machine(LuaVersion::Lua54);
    push_table(&mut m, 0, 1).unwrap();
    m.push(Slot::CFunction(CFunction::Host(1)));
    rawset_field(&mut m, -2, b"__tostring").unwrap();
    match m.value(-1) {
        Slot::Table(t) => m.set_string_metatable(t),
        v => panic!("not a table: {:?}", v),
    }
    m.push(string("oops"));
    m.expect(Answer::Returns(vec![string("shown")]));
    m.expect_text(b" at".to_vec());
    assert_eq!(error_traceback(&mut m), Ok(1));
    assert_eq!(m.value(-1), string("shown at"));
    assert!(matches!(m.asked_for(0), Asked::Text(v) if *v == string("oops")));
}

#[test]
fn traceback_of_a_value_with_a_tostring() {
    let mut m = machine(LuaVersion::Lua54);
    m.push(Slot::Table(3));
    m.expect(Answer::Returns(vec![string("shown")]));
    m.expect_text(b" at".to_vec());
    assert_eq!(error_traceback(&mut m), Ok(1));
    assert_eq!(m.value(-1), string("shown at"));
}

#[test]
fn traceback_leaves_host_failures_alone() {
    let mut m = machine(LuaVersion::Lua54);
    let wrapped = WrappedFailure::Panic(Some(PanicPayload::Opaque(5)));
    push_gc_userdata(&mut m, Payload::Failure(wrapped), FAILURE_KEY).unwrap();
    let before = m.value(-1);
    m.expect_text(b" at".to_vec());
    assert_eq!(error_traceback(&mut m), Ok(1));
    assert_eq!(m.gettop(), 1);
    assert_eq!(m.value(-1), before);
}

#[test]
fn traceback_passes_on_an_error_of_the_tostring() {
    let mut m = machine(LuaVersion::Lua54);
    m.push(Slot::Table(3));
    m.expect(Answer::Raises(Status::ErrRun, Slot::Integer(1)));
    assert_eq!(error_traceback(&mut m).unwrap_err().status, Status::ErrRun);
    assert_eq!(m.in_flight(), Slot::Integer(1));
}

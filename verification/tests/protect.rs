use mlua_util::api::Lua;
use mlua_util::failure::get_gc_userdata;
use mlua_util::machine::Machine;
use mlua_util::protect::protect_lua;
use mlua_util::protect::Body;
use mlua_util::registry::init_error_registry;
use mlua_util::slot::Slot;
use mlua_util::state::State;
use mlua_util::userdata::get_destructed_userdata_metatable;
use mlua_util::userdata::get_userdata;
use mlua_util::userdata::push_gc_userdata;
use mlua_util::userdata::push_string;
use mlua_util::userdata::push_table;
use mlua_util::userdata::push_userdata;
use mlua_util::userdata::rawset_field;
use mlua_util::userdata::take_userdata;
use mlua_util::userdata::userdata_destructor;
use mlua_util::value::Error;
use mlua_util::value::Failure;
use mlua_util::value::LuaVersion;
use mlua_util::value::Payload;
use mlua_util::value::Raised;
use mlua_util::value::MULTRET;
use mlua_util::value::TEXT_KEY;

fn machine() -> Machine<u32> {
    let mut m = Machine::new(LuaVersion::Lua54, 1000);
    init_error_registry(&mut m).unwrap();
    m
}

fn string(s: &str) -> Slot {
    Slot::Str(s.as_bytes().to_vec())
}

fn out_of_memory<T>(r: Result<T, Failure>) -> bool {
    matches!(r, Err(Failure::Error(Error::MemoryError(s))) if s == "not enough memory")
}

/// Swaps its two arguments, pushes a third value, and hands out the number of its arguments.
struct Swap;

impl Body<Machine<u32>> for Swap {
    type Value = i32;

    fn accepts(&self, _: State<u32>) -> bool {
        unreachable!()
    }

    fn effect(&self, _: State<u32>) -> (State<u32>, Result<i32, Raised>) {
        unreachable!()
    }

    fn run(self, state: &mut Machine<u32>) -> Result<i32, Raised> {
        let n = state.gettop();
        state.rotate(1, 1);
        state.pushboolean(true);
        Ok(n)
    }
}

/// Raises a message.
struct Fail;

impl Body<Machine<u32>> for Fail {
    type Value = ();

    fn accepts(&self, _: State<u32>) -> bool {
        unreachable!()
    }

    fn effect(&self, _: State<u32>) -> (State<u32>, Result<(), Raised>) {
        unreachable!()
    }

    fn run(self, state: &mut Machine<u32>) -> Result<(), Raised> {
        Err(state.raise(b"boom"))
    }
}

#[test]
fn protected_call_replaces_arguments_by_all_results() {
    let mut m = machine();
    for i in 1..4 {
        m.push(Slot::Integer(i));
    }
    assert_eq!(protect_lua(&mut m, 2, MULTRET, Swap).unwrap(), 2);
    assert_eq!(m.gettop(), 4);
    assert_eq!(m.value(1), Slot::Integer(1));
    assert_eq!(m.value(2), Slot::Integer(3));
    assert_eq!(m.value(3), Slot::Integer(2));
    assert_eq!(m.value(4), Slot::Boolean(true));
}

#[test]
fn protected_call_keeps_the_results_asked_for() {
    let mut m = machine();
    for i in 1..4 {
        m.push(Slot::Integer(i));
    }
    assert_eq!(protect_lua(&mut m, 2, 1, Swap).unwrap(), 2);
    assert_eq!(m.gettop(), 2);
    assert_eq!(m.value(1), Slot::Integer(1));
    assert_eq!(m.value(2), Slot::Boolean(true));
}

#[test]
fn protected_call_returns_the_error_with_a_traceback() {
    let mut m = machine();
    m.push(Slot::Integer(1));
    m.push(Slot::Integer(2));
    m.expect_text(b"here: ".to_vec());
    m.expect_text(b" (traced)".to_vec());
    match protect_lua(&mut m, 1, 0, Fail) {
        Err(Failure::Error(Error::RuntimeError(s))) => assert_eq!(s, "here: boom (traced)"),
        r => panic!("{:?}", r),
    }
    assert_eq!(m.gettop(), 1);
    assert_eq!(m.value(1), Slot::Integer(1));
}

#[test]
fn protected_call_of_a_plain_error_needs_no_error_registry() {
    let mut m: Machine<u32> = Machine::new(LuaVersion::Lua54, 10);
    m.expect_text(b"here: ".to_vec());
    m.expect_text(b" (traced)".to_vec());
    match protect_lua(&mut m, 0, 0, Fail) {
        Err(Failure::Error(Error::RuntimeError(s))) => assert_eq!(s, "here: boom (traced)"),
        r => panic!("{:?}", r),
    }
    assert_eq!(m.gettop(), 0);
}

#[test]
fn string_is_pushed() {
    let mut m = machine();
    push_string(&mut m, b"a\0b").unwrap();
    assert_eq!(m.value(-1), Slot::Str(vec![b'a', 0, b'b']));
}

#[test]
fn lack_of_memory_leaves_the_stack_alone() {
    for budget in 0..2 {
        let mut m = machine();
        m.push(Slot::Integer(1));
        m.limit_memory(budget);
        assert!(out_of_memory(push_string(&mut m, b"x")));
        m.limit_memory(0);
        assert!(out_of_memory(push_table(&mut m, 0, 1)));
        assert!(out_of_memory(push_userdata(&mut m, Payload::Object(3))));
        assert!(out_of_memory(push_gc_userdata(&mut m, Payload::Text(String::new()), TEXT_KEY)));
        assert_eq!(m.gettop(), 1);
        assert_eq!(m.value(1), Slot::Integer(1));
    }
}

#[test]
fn field_is_set_and_read_back() {
    let mut m = machine();
    push_table(&mut m, 0, 1).unwrap();
    m.push(Slot::Integer(5));
    rawset_field(&mut m, -2, b"key").unwrap();
    m.push(Slot::Integer(6));
    rawset_field(&mut m, 1, b"other").unwrap();
    assert_eq!(m.gettop(), 1);
    m.push(string("key"));
    m.rawget(1);
    assert_eq!(m.value(-1), Slot::Integer(5));
    m.push(string("absent"));
    m.rawget(1);
    assert_eq!(m.value(-1), Slot::Nil);
}

#[test]
fn lack_of_memory_for_a_field_drops_the_value() {
    for budget in 0..3 {
        let mut m = machine();
        push_table(&mut m, 0, 1).unwrap();
        m.push(Slot::Integer(5));
        m.limit_memory(budget);
        assert!(out_of_memory(rawset_field(&mut m, -2, b"key")));
        assert_eq!(m.gettop(), 1);
        let t = match m.value(1) {
            Slot::Table(t) => t,
            v => panic!("not a table: {:?}", v),
        };
        assert_eq!(m.entry(t, &string("key")), Slot::Nil);
    }
}

#[test]
fn pushed_userdata_is_taken_back() {
    let mut m = machine();
    m.push(Slot::Integer(1));
    push_userdata(&mut m, Payload::Object(77)).unwrap();
    let block = get_userdata(&m, -1);
    assert_eq!(m.value(-1), Slot::Userdata(block));
    m.pushvalue(-1);
    assert!(matches!(take_userdata(&mut m), Payload::Object(77)));
    assert_eq!(m.gettop(), 2);
    assert!(matches!(m.payload(block), Payload::Vacant));
    assert!(m.getmetatable(-1));
    get_destructed_userdata_metatable(&mut m);
    assert!(m.rawequal(-1, -2));
}

#[test]
fn destructed_userdata_passes_for_no_type() {
    let mut m = machine();
    push_gc_userdata(&mut m, Payload::Text("x".to_string()), TEXT_KEY).unwrap();
    m.pushvalue(-1);
    assert_eq!(userdata_destructor(&mut m), 0);
    assert_eq!(m.gettop(), 1);
    assert_eq!(get_gc_userdata(&mut m, -1, TEXT_KEY), None);
}

use mlua_util::api::Lua;
use mlua_util::machine::Answer;
use mlua_util::machine::Machine;
use mlua_util::registry::init_error_registry;
use mlua_util::slot::Slot;
use mlua_util::userdata::push_table;
use mlua_util::userdata::rawset_field;
use mlua_util::value::LuaType;
use mlua_util::value::LuaVersion;
use mlua_util::value::Status;

fn machine() -> Machine<u32> {
    let mut m = Machine::new(LuaVersion::Lua54, 1000);
    init_error_registry(&mut m).unwrap();
    m
}

fn string(s: &str) -> Slot {
    Slot::Str(s.as_bytes().to_vec())
}

#[test]
fn float_keys_that_are_whole_name_integers() {
    let mut m = machine();
    push_table(&mut m, 0, 0).unwrap();
    m.push(Slot::Number { text: "2".to_string(), whole: Some(2) });
    m.push(Slot::Boolean(true));
    assert!(m.rawset(1).is_ok());
    m.rawgeti(1, 2);
    assert_eq!(m.value(-1), Slot::Boolean(true));
    m.push(Slot::Integer(2));
    m.push(Slot::Number { text: "2".to_string(), whole: Some(2) });
    assert!(m.rawequal(-1, -2));
}

#[test]
fn nan_equals_nothing_and_is_no_key() {
    let mut m = machine();
    push_table(&mut m, 0, 0).unwrap();
    let nan = Slot::Number { text: "NaN".to_string(), whole: None };
    m.push(nan.clone());
    m.push(nan);
    assert!(!m.rawequal(-1, -2));
    m.expect_text(b"index is NaN".to_vec());
    assert_eq!(m.rawset(1).unwrap_err().status, Status::ErrRun);
    assert_eq!(m.in_flight(), string("index is NaN"));
}

#[test]
fn nil_removes_an_entry() {
    let mut m = machine();
    push_table(&mut m, 0, 0).unwrap();
    for v in [Slot::Integer(1), Slot::Nil] {
        m.push(v);
        rawset_field(&mut m, -2, b"k").unwrap();
    }
    m.push(string("k"));
    assert_eq!(m.rawget(1), LuaType::Nil);
}

#[test]
fn missing_entries_go_to_the_index_metamethod() {
    let mut m = machine();
    push_table(&mut m, 0, 0).unwrap();
    push_table(&mut m, 0, 0).unwrap();
    m.push(Slot::Boolean(true));
    rawset_field(&mut m, -2, b"__index").unwrap();
    m.setmetatable(1);
    m.push(string("k"));
    m.expect(Answer::Returns(vec![Slot::Integer(4)]));
    assert!(m.gettable(1).is_ok());
    assert_eq!(m.value(-1), Slot::Integer(4));
}

#[test]
fn numerals_read_as_integers() {
    let mut m = machine();
    m.set_numeral(b"0x10".to_vec(), 16);
    m.push(string("0x10"));
    assert_eq!(m.tointegerx(-1), Some(16));
    m.push(string("x"));
    assert_eq!(m.tointegerx(-1), None);
    m.set_number_string(Slot::Integer(3), b"3".to_vec());
    m.push(Slot::Integer(3));
    assert_eq!(m.tostring(-1), Ok(Some(b"3".to_vec())));
    assert_eq!(m.value(-1), string("3"));
    m.push(Slot::Integer(3));
    m.limit_memory(0);
    assert_eq!(m.tostring(-1).unwrap_err().status, Status::ErrMem);
}

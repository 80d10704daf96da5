use mlua_util::api::Lua;
use mlua_util::cache::MetatableCache;
use mlua_util::failure::get_gc_metatable;
use mlua_util::failure::get_gc_userdata;
use mlua_util::machine::Answer;
use mlua_util::machine::Asked;
use mlua_util::machine::Machine;
use mlua_util::meta::meta_index_impl;
use mlua_util::meta::meta_newindex_impl;
use mlua_util::metatable::init_gc_metatable;
use mlua_util::metatable::init_userdata_metatable;
use mlua_util::metatable::Plain;
use mlua_util::registry::init_error_registry;
use mlua_util::registry::TostringField;
use mlua_util::slot::Slot;
use mlua_util::userdata::get_destructed_userdata_metatable;
use mlua_util::userdata::push_gc_userdata;
use mlua_util::userdata::push_table;
use mlua_util::userdata::rawset_field;
use mlua_util::value::CFunction;
use mlua_util::value::Error;
use mlua_util::value::Failure;
use mlua_util::value::LuaVersion;
use mlua_util::value::Payload;
use mlua_util::value::Pointer;
use mlua_util::value::Status;
use mlua_util::value::FAILURE_KEY;
use mlua_util::value::REGISTRY_INDEX;
use mlua_util::value::TEXT_KEY;

const KEY: u64 = 40;

fn machine(version: LuaVersion) -> Machine<u32> {
    let mut m = Machine::new(version, 1000);
    init_error_registry(&mut m).unwrap();
    m
}

fn string(s: &str) -> Slot {
    Slot::Str(s.as_bytes().to_vec())
}

fn table_at(m: &Machine<u32>, idx: i32) -> u64 {
    match m.value(idx) {
        Slot::Table(t) => t,
        v => panic!("not a table: {:?}", v),
    }
}

/// A new table with one entry, on top of the stack.
fn table_with(m: &mut Machine<u32>, field: &str, v: Slot) -> u64 {
    push_table(m, 0, 1).unwrap();
    m.push(v);
    rawset_field(m, -2, field.as_bytes()).unwrap();
    table_at(m, -1)
}

#[test]
fn metatable_of_a_type() {
    let mut m = machine(LuaVersion::Lua54);
    init_gc_metatable(&mut m, KEY, None::<Plain>).unwrap();
    assert_eq!(m.gettop(), 0);
    assert!(m.is_cached(KEY));
    get_gc_metatable(&mut m, KEY);
    let t = table_at(&m, -1);
    assert_eq!(m.entry(t, &string("__gc")), Slot::CFunction(CFunction::Destructor(KEY)));
    assert_eq!(m.entry(t, &string("__metatable")), Slot::Boolean(false));
    assert_eq!(m.entry(t, &string("__tostring")), Slot::Nil);
    get_gc_metatable(&mut m, FAILURE_KEY);
    assert!(!m.rawequal(-1, -2));

    push_gc_userdata(&mut m, Payload::Object(5), KEY).unwrap();
    let block = get_gc_userdata(&mut m, -1, KEY).unwrap();
    assert!(matches!(m.payload(block), Payload::Object(5)));
    assert_eq!(get_gc_userdata(&mut m, -1, TEXT_KEY), None);
}

#[test]
fn metatable_of_a_type_before_the_error_registry() {
    let mut m: Machine<u32> = Machine::new(LuaVersion::Lua54, 100);
    push_table(&mut m, 0, 0).unwrap();
    init_gc_metatable(&mut m, KEY, None::<Plain>).unwrap();
    push_gc_userdata(&mut m, Payload::Object(5), KEY).unwrap();
    assert!(get_gc_userdata(&mut m, -1, KEY).is_some());
}

#[test]
fn metatable_of_a_type_with_an_addition() {
    let mut m = machine(LuaVersion::Lua54);
    init_gc_metatable(&mut m, KEY, Some(TostringField)).unwrap();
    get_gc_metatable(&mut m, KEY);
    let t = table_at(&m, -1);
    assert_eq!(m.entry(t, &string("__tostring")), Slot::CFunction(CFunction::ErrorTostring));
}

#[test]
fn metatable_without_stack_space() {
    let mut m = machine(LuaVersion::Lua54);
    for _ in 0..15 {
        m.push(Slot::Nil);
    }
    m.limit_memory(0);
    assert!(matches!(
        init_gc_metatable(&mut m, KEY, None::<Plain>),
        Err(Failure::Error(Error::StackError))
    ));
}

#[test]
fn metatable_without_memory() {
    for budget in [0, 4, 7, 9] {
        let mut m = machine(LuaVersion::Lua54);
        m.limit_memory(budget);
        assert!(matches!(
            init_gc_metatable(&mut m, KEY, None::<Plain>),
            Err(Failure::Error(Error::MemoryError(_)))
        ));
    }
}

#[test]
fn cache_has_room_for_a_fixed_number_of_types() {
    let mut c = MetatableCache::new();
    for key in 0..32 {
        assert!(c.has_room());
        assert!(!c.contains(key));
        assert_eq!(c.has_room_after(key), key < 31);
        c.insert(key);
        assert!(c.contains(key));
    }
    assert!(!c.has_room());
    assert!(!c.has_room_after(0));
}

#[test]
fn error_registry_by_version() {
    let v52 = ["__pairs", "__ipairs"];
    let v53 = ["__idiv", "__band", "__bor", "__bxor", "__bnot", "__shl", "__shr"];
    for version in [
        LuaVersion::Lua54,
        LuaVersion::Lua53,
        LuaVersion::Lua52,
        LuaVersion::Lua51,
        LuaVersion::LuaJit,
    ] {
        let mut m = machine(version);
        assert_eq!(m.gettop(), 0);
        get_destructed_userdata_metatable(&mut m);
        let t = table_at(&m, -1);
        let fails = |name: &str| {
            m.entry(t, &string(name)) == Slot::CFunction(CFunction::DestructedError)
        };
        let always = ["__add", "__unm", "__concat", "__index", "__newindex", "__tostring"];
        for name in always {
            assert!(fails(name));
        }
        assert!(!fails("__gc"));
        let is_54 = version == LuaVersion::Lua54;
        let is_53 = version == LuaVersion::Lua53;
        let is_52 = version == LuaVersion::Lua52;
        for name in v53 {
            assert_eq!(fails(name), is_54 || is_53);
        }
        assert_eq!(fails(v52[0]), is_54 || is_53 || is_52);
        assert_eq!(fails(v52[1]), is_53 || is_52);
        assert_eq!(fails("__close"), is_54);
    }
}

#[test]
fn error_registry_has_a_print_buffer() {
    let mut m = machine(LuaVersion::Lua54);
    m.rawgetp(REGISTRY_INDEX, Pointer::ErrorPrintBuffer);
    let block = get_gc_userdata(&mut m, -1, TEXT_KEY).unwrap();
    assert!(matches!(m.payload(block), Payload::Text(s) if s.is_empty()));
}

#[test]
fn error_registry_takes_an_exact_amount_of_memory() {
    let mut m: Machine<u32> = Machine::new(LuaVersion::Lua54, 106);
    assert!(init_error_registry(&mut m).is_ok());
    let mut m: Machine<u32> = Machine::new(LuaVersion::Lua54, 105);
    assert!(matches!(
        init_error_registry(&mut m),
        Err(Failure::Error(Error::MemoryError(_)))
    ));
    let mut m: Machine<u32> = Machine::new(LuaVersion::Lua51, 79);
    assert!(init_error_registry(&mut m).is_ok());
    let mut m: Machine<u32> = Machine::new(LuaVersion::Lua51, 78);
    assert!(init_error_registry(&mut m).is_err());
}

#[test]
fn error_registry_without_stack_space() {
    let mut m: Machine<u32> = Machine::new(LuaVersion::Lua54, 0);
    for _ in 0..14 {
        m.push(Slot::Nil);
    }
    assert!(matches!(
        init_error_registry(&mut m),
        Err(Failure::Error(Error::StackError))
    ));
}

#[test]
fn plain_userdata_metatable() {
    let mut m = machine(LuaVersion::Lua54);
    let t = table_with(&mut m, "__index", Slot::CFunction(CFunction::Host(1)));
    init_userdata_metatable(&mut m, -1, None, None, None, KEY).unwrap();
    assert_eq!(m.gettop(), 1);
    assert_eq!(m.entry(t, &string("__gc")), Slot::CFunction(CFunction::Destructor(KEY)));
    assert_eq!(m.entry(t, &string("__metatable")), Slot::Boolean(false));
    assert_eq!(m.entry(t, &string("__index")), Slot::CFunction(CFunction::Host(1)));
    assert_eq!(m.entry(t, &string("__newindex")), Slot::Nil);
}

#[test]
fn userdata_metatable_with_fields_and_methods() {
    let mut m = machine(LuaVersion::Lua54);
    table_with(&mut m, "get", Slot::CFunction(CFunction::Host(1)));
    table_with(&mut m, "set", Slot::CFunction(CFunction::Host(2)));
    table_with(&mut m, "run", Slot::CFunction(CFunction::Host(3)));
    let t = table_with(&mut m, "__index", Slot::CFunction(CFunction::Host(4)));
    init_userdata_metatable(&mut m, 4, Some(1), Some(2), Some(3), KEY).unwrap();
    assert_eq!(m.gettop(), 4);
    assert!(matches!(m.entry(t, &string("__index")), Slot::Closure(_)));
    assert!(matches!(m.entry(t, &string("__newindex")), Slot::Closure(_)));
    assert_eq!(m.entry(t, &string("__gc")), Slot::CFunction(CFunction::Destructor(KEY)));
}

#[test]
fn userdata_metatable_without_memory() {
    for budget in [0, 6, 13, 19] {
        let mut m = machine(LuaVersion::Lua54);
        push_table(&mut m, 0, 0).unwrap();
        push_table(&mut m, 0, 0).unwrap();
        m.limit_memory(budget);
        assert!(matches!(
            init_userdata_metatable(&mut m, 1, Some(2), Some(2), None, KEY),
            Err(Failure::Error(Error::MemoryError(_)))
        ));
    }
    let mut m = machine(LuaVersion::Lua54);
    push_table(&mut m, 0, 0).unwrap();
    push_table(&mut m, 0, 0).unwrap();
    m.limit_memory(20);
    assert!(init_userdata_metatable(&mut m, 1, Some(2), Some(2), None, KEY).is_ok());
}

/// A frame with a userdata and a key, as `__index` sees it: a getter for `x`, methods for `x`
/// and `m`, and `index` as the old `__index`.
fn index_frame(index: Slot, key: Slot) -> Machine<u32> {
    let mut m = machine(LuaVersion::Lua54);
    let getters = table_with(&mut m, "x", Slot::CFunction(CFunction::Host(1)));
    let methods = table_with(&mut m, "x", Slot::CFunction(CFunction::Host(2)));
    m.push(Slot::CFunction(CFunction::Host(3)));
    rawset_field(&mut m, -2, b"m").unwrap();
    m.settop(0);
    m.bind(vec![index, Slot::Table(getters), Slot::Table(methods)]);
    m.push(Slot::Userdata(999));
    m.push(key);
    m
}

#[test]
fn index_calls_the_getter() {
    let mut m = index_frame(Slot::Nil, string("x"));
    m.expect(Answer::Returns(vec![Slot::Integer(5)]));
    assert_eq!(meta_index_impl(&mut m), Ok(1));
    assert_eq!(m.gettop(), 1);
    assert_eq!(m.value(1), Slot::Integer(5));
    assert!(matches!(
        m.asked_for(0),
        Asked::Function(f, args)
            if *f == Slot::CFunction(CFunction::Host(1)) && *args == vec![Slot::Userdata(999)]
    ));
}

#[test]
fn index_passes_on_the_error_of_a_getter() {
    let mut m = index_frame(Slot::Nil, string("x"));
    m.expect(Answer::Raises(Status::ErrRun, string("no")));
    assert_eq!(meta_index_impl(&mut m).unwrap_err().status, Status::ErrRun);
    assert_eq!(m.in_flight(), string("no"));
}

#[test]
fn index_gives_the_method() {
    let mut m = index_frame(Slot::CFunction(CFunction::Host(4)), string("m"));
    assert_eq!(meta_index_impl(&mut m), Ok(1));
    assert_eq!(m.gettop(), 1);
    assert_eq!(m.value(1), Slot::CFunction(CFunction::Host(3)));
}

#[test]
fn index_asks_the_old_function() {
    let mut m = index_frame(Slot::CFunction(CFunction::Host(4)), string("other"));
    m.expect(Answer::Returns(vec![Slot::Integer(6), Slot::Integer(7)]));
    assert_eq!(meta_index_impl(&mut m), Ok(1));
    assert_eq!(m.gettop(), 1);
    assert_eq!(m.value(1), Slot::Integer(6));
}

#[test]
fn index_looks_into_the_old_table() {
    let mut m = index_frame(Slot::Nil, string("other"));
    let old = table_with(&mut m, "other", Slot::Integer(8));
    m.settop(2);
    let getters = m.value(REGISTRY_INDEX - 2);
    let methods = m.value(REGISTRY_INDEX - 3);
    m.bind(vec![Slot::Table(old), getters, methods]);
    assert_eq!(meta_index_impl(&mut m), Ok(1));
    assert_eq!(m.value(-1), Slot::Integer(8));
}

#[test]
fn index_of_an_unknown_field() {
    let mut m = index_frame(Slot::Nil, string("other"));
    m.expect_text(b"at: ".to_vec());
    assert_eq!(meta_index_impl(&mut m).unwrap_err().status, Status::ErrRun);
    assert_eq!(m.in_flight(), string("at: attempt to get an unknown field 'other'"));
}

#[test]
fn unknown_field_is_named_up_to_a_zero_byte() {
    let mut m = index_frame(Slot::Nil, string("ot\0her"));
    assert_eq!(meta_index_impl(&mut m).unwrap_err().status, Status::ErrRun);
    assert_eq!(m.in_flight(), string("attempt to get an unknown field 'ot'"));
    let mut m = newindex_frame(Slot::Nil, string("y\0z"));
    assert_eq!(meta_newindex_impl(&mut m).unwrap_err().status, Status::ErrRun);
    assert_eq!(m.in_flight(), string("attempt to set an unknown field 'y'"));
}

#[test]
fn unknown_field_without_memory_for_the_message() {
    let mut m = index_frame(Slot::Nil, string("other"));
    m.limit_memory(0);
    assert_eq!(meta_index_impl(&mut m).unwrap_err().status, Status::ErrMem);
    assert_eq!(m.in_flight(), string("not enough memory"));
    let mut m = newindex_frame(Slot::Nil, string("y"));
    m.limit_memory(0);
    assert_eq!(meta_newindex_impl(&mut m).unwrap_err().status, Status::ErrMem);
    assert_eq!(m.in_flight(), string("not enough memory"));
}

#[test]
fn unknown_field_with_a_number() {
    let mut m = index_frame(Slot::Nil, Slot::Integer(7));
    m.set_number_string(Slot::Integer(7), b"7".to_vec());
    assert_eq!(meta_index_impl(&mut m).unwrap_err().status, Status::ErrRun);
    assert_eq!(m.in_flight(), string("attempt to get an unknown field '7'"));
    let mut m = index_frame(Slot::Nil, Slot::Integer(7));
    m.limit_memory(1);
    assert_eq!(meta_index_impl(&mut m).unwrap_err().status, Status::ErrMem);
}

#[test]
fn unknown_field_without_a_name() {
    let mut m = index_frame(Slot::Nil, Slot::Boolean(true));
    assert_eq!(meta_index_impl(&mut m).unwrap_err().status, Status::ErrRun);
    assert_eq!(m.in_flight(), string("attempt to get an unknown field '(null)'"));
}

/// A frame with a userdata, a key and a value, as `__newindex` sees it: a setter for `x`, and
/// `newindex` as the old `__newindex`.
fn newindex_frame(newindex: Slot, key: Slot) -> Machine<u32> {
    let mut m = machine(LuaVersion::Lua54);
    let setters = table_with(&mut m, "x", Slot::CFunction(CFunction::Host(1)));
    m.settop(0);
    m.bind(vec![newindex, Slot::Table(setters)]);
    m.push(Slot::Userdata(999));
    m.push(key);
    m.push(Slot::Integer(1));
    m
}

#[test]
fn newindex_calls_the_setter() {
    let mut m = newindex_frame(Slot::Nil, string("x"));
    m.expect(Answer::Returns(vec![]));
    assert_eq!(meta_newindex_impl(&mut m), Ok(0));
    assert_eq!(m.gettop(), 0);
    assert!(matches!(
        m.asked_for(0),
        Asked::Function(f, args)
            if *f == Slot::CFunction(CFunction::Host(1))
                && *args == vec![Slot::Userdata(999), Slot::Integer(1)]
    ));
}

#[test]
fn newindex_asks_the_old_function() {
    let mut m = newindex_frame(Slot::CFunction(CFunction::Host(4)), string("y"));
    m.expect(Answer::Raises(Status::ErrRun, string("no")));
    assert_eq!(meta_newindex_impl(&mut m).unwrap_err().status, Status::ErrRun);
    assert_eq!(m.in_flight(), string("no"));
}

#[test]
fn newindex_writes_to_the_old_table() {
    let mut m = newindex_frame(Slot::Nil, string("y"));
    let old = table_with(&mut m, "z", Slot::Nil);
    m.settop(3);
    let setters = m.value(REGISTRY_INDEX - 2);
    m.bind(vec![Slot::Table(old), setters]);
    assert_eq!(meta_newindex_impl(&mut m), Ok(0));
    assert_eq!(m.entry(old, &string("y")), Slot::Integer(1));
}

#[test]
fn newindex_of_an_unknown_field() {
    let mut m = newindex_frame(Slot::Nil, string("y"));
    m.expect_text(b"at: ".to_vec());
    assert_eq!(meta_newindex_impl(&mut m).unwrap_err().status, Status::ErrRun);
    assert_eq!(m.in_flight(), string("at: attempt to set an unknown field 'y'"));
}

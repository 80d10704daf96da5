use mlua_util::api::Lua;
use mlua_util::machine::Machine;
use mlua_util::slot::Slot;
use mlua_util::stack::assert_stack;
use mlua_util::stack::check_stack;
use mlua_util::stack::insert;
use mlua_util::stack::pop;
use mlua_util::stack::remove;
use mlua_util::stack::replace;
use mlua_util::stack::StackGuard;
use mlua_util::value::Error;
use mlua_util::value::LuaVersion;

fn machine(values: i64) -> Machine<u32> {
    let mut m = Machine::new(LuaVersion::Lua54, 100);
    for i in 0..values {
        m.push(Slot::Integer(i));
    }
    m
}

fn integers(m: &Machine<u32>) -> Vec<i64> {
    (1..=m.gettop())
        .map(|i| match m.value(i) {
            Slot::Integer(n) => n,
            v => panic!("not an integer: {:?}", v),
        })
        .collect()
}

#[test]
fn check_stack_within_the_room_needs_no_memory() {
    let mut m: Machine<u32> = Machine::new(LuaVersion::Lua54, 0);
    assert!(check_stack(&mut m, 20).is_ok());
}

#[test]
fn check_stack_without_memory_is_a_stack_error() {
    let mut m: Machine<u32> = Machine::new(LuaVersion::Lua54, 0);
    assert!(matches!(check_stack(&mut m, 21), Err(Error::StackError)));
}

#[test]
fn check_stack_beyond_the_limit_is_a_stack_error() {
    let mut m = machine(1);
    assert!(check_stack(&mut m, 999_999).is_ok());
    assert!(matches!(check_stack(&mut m, 1_000_000), Err(Error::StackError)));
}

#[test]
fn assert_stack_makes_room() {
    let mut m = machine(3);
    assert_stack(&mut m, 100);
    for i in 3..103 {
        m.push(Slot::Integer(i));
    }
    assert_eq!(m.gettop(), 103);
    assert_eq!(m.value(-1), Slot::Integer(102));
}

#[test]
fn shuffling_the_stack() {
    let mut m = machine(4);
    insert(&mut m, 2);
    assert_eq!(integers(&m), vec![0, 3, 1, 2]);
    remove(&mut m, -3);
    assert_eq!(integers(&m), vec![0, 1, 2]);
    replace(&mut m, 1);
    assert_eq!(integers(&m), vec![2, 1]);
    pop(&mut m, 2);
    assert_eq!(integers(&m), Vec::<i64>::new());
}

#[test]
fn guard_drops_what_came_on_top() {
    let mut m = machine(3);
    let guard = StackGuard::new(&m);
    m.push(Slot::Integer(7));
    m.push(Slot::Integer(8));
    guard.drop(&mut m);
    assert_eq!(integers(&m), vec![0, 1, 2]);
}

#[test]
fn guard_leaves_an_unchanged_stack_alone() {
    let mut m = machine(3);
    let guard = StackGuard::new(&m);
    guard.drop(&mut m);
    assert_eq!(integers(&m), vec![0, 1, 2]);
}

#[test]
fn guard_keeps_extra_values() {
    let mut m = machine(2);
    let guard = StackGuard::new_extra(&m, 2);
    assert_eq!(guard.needed(), 4);
    for i in 5..9 {
        m.push(Slot::Integer(i));
    }
    guard.drop(&mut m);
    assert_eq!(integers(&m), vec![0, 1, 7, 8]);
}

#[test]
fn guard_removes_values_that_are_to_go() {
    let mut m = machine(3);
    let guard = StackGuard::new_extra(&m, -2);
    assert_eq!(guard.missing(1), 2);
    m.push(Slot::Integer(9));
    guard.drop(&mut m);
    assert_eq!(integers(&m), vec![0]);
}

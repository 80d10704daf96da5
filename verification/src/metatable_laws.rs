//! What holds of metatables: those that the library makes, and what they do.

use vstd::prelude::*;

use crate::laws::lemma_with_all;
use crate::meta::meta_index;
use crate::meta::meta_newindex;
use crate::metatable::gc_metatable;
use crate::metatable::index_wrapped;
use crate::metatable::lemma_field_names;
use crate::metatable::metatable_requests;
use crate::metatable::newindex_wrapped;
use crate::metatable::with_gc;
use crate::registry::destructed_metatable;
use crate::registry::failure_metatable;
use crate::registry::metamethods;
use crate::registry::with_all;
use crate::state::c_string;
use crate::state::grants;
use crate::state::name;
use crate::state::Call;
use crate::state::Outcome;
use crate::state::State;
use crate::state::TableModel;
use crate::value::CFunction;
use crate::value::LuaVersion;
use crate::value::Raised;
use crate::value::Status;
use crate::value::TypeKey;
use crate::value::Value;
use crate::value::FAILURE_KEY;
use crate::value::REGISTRY_INDEX;

verus! {

/// The index `i` names the same slot, bound value or registry, however much is pushed.
pub open spec fn is_absolute<O>(s: State<O>, i: int) -> bool {
    0 < i <= s.stack.len() || i <= REGISTRY_INDEX && s.valid(i)
}

/// The value that stands at an index that may be missing.
pub open spec fn given<O>(s: State<O>, idx: Option<i32>) -> Value {
    if idx is Some {
        s.at(idx->0 as int)
    } else {
        Value::Nil
    }
}

/// `init_userdata_metatable` binds what it makes to the values that the caller has on the stack:
/// the function under `__index` to the old `__index`, the getters and the methods, in this order,
/// and the one under `__newindex` to the old `__newindex` and the setters. What is not given is
/// nil. The caller's stack is as it was.
pub proof fn law_metatable_binds_what_it_is_given<O>(
    s: State<O>,
    metatable: i32,
    getters: Option<i32>,
    setters: Option<i32>,
    methods: Option<i32>,
    key: TypeKey,
)
    requires
        s.wf(),
        s.at(metatable as int) is Table,
        s.heap.tables.contains_key(s.at(metatable as int)->Table_0),
        getters is Some ==> is_absolute(s, getters->0 as int),
        setters is Some ==> is_absolute(s, setters->0 as int),
        methods is Some ==> is_absolute(s, methods->0 as int),
        grants(s.memory, metatable_requests(getters, setters, methods)),
    ensures
        ({
            let t = s.at(metatable as int)->Table_0;
            let u = with_gc(
                newindex_wrapped(
                    index_wrapped(s.push(Value::Table(t)), t, getters, methods),
                    t,
                    setters,
                ),
                t,
                key,
            ).pop(1);
            let index = u.heap.get(t, name("__index"));
            let newindex = u.heap.get(t, name("__newindex"));
            &&& u.stack == s.stack
            &&& getters is Some || methods is Some ==> {
                &&& index matches Value::Closure(a) && {
                    &&& u.heap.closures.contains_key(a)
                    &&& u.heap.closures[a].function == CFunction::MetaIndex
                    &&& u.heap.closures[a].upvalues.len() == 3
                    &&& u.heap.closures[a].upvalues[0] == s.heap.get(t, name("__index"))
                    &&& u.heap.closures[a].upvalues[1] == given(s, getters)
                    &&& u.heap.closures[a].upvalues[2] == given(s, methods)
                }
            }
            &&& getters is None && methods is None ==> index == s.heap.get(t, name("__index"))
            &&& setters is Some ==> {
                &&& newindex matches Value::Closure(a) && {
                    &&& u.heap.closures.contains_key(a)
                    &&& u.heap.closures[a].function == CFunction::MetaNewindex
                    &&& u.heap.closures[a].upvalues.len() == 2
                    &&& u.heap.closures[a].upvalues[0] == s.heap.get(t, name("__newindex"))
                    &&& u.heap.closures[a].upvalues[1] == given(s, setters)
                }
            }
            &&& setters is None ==> newindex == s.heap.get(t, name("__newindex"))
            &&& u.heap.get(t, name("__gc")) == Value::CFunction(CFunction::Destructor(key))
            &&& u.heap.get(t, name("__metatable")) == Value::Boolean(false)
            &&& u.heap.userdata == s.heap.userdata && u.heap.cached == s.heap.cached
            &&& u.heap.table(t).metatable == s.heap.table(t).metatable
            &&& forall|x: u64, k: Value|
                x != t || k.key() != name("__gc") && k.key() != name("__metatable") && k.key()
                    != name("__index") && k.key() != name("__newindex") ==> #[trigger] u.heap.get(
                    x,
                    k,
                ) == s.heap.get(x, k)
        }),
{
    lemma_field_names();
    let t = s.at(metatable as int)->Table_0;
    let s0 = s.push(Value::Table(t));
    let m = s.memory;
    let s1 = index_wrapped(s0, t, getters, methods);
    let s2 = newindex_wrapped(s1, t, setters);
    let u = with_gc(s2, t, key).pop(1);
    assert(u.stack =~= s.stack);
    if getters is Some || methods is Some {
        let old = s0.heap.get(t, name("__index"));
        assert(m[3] is Some);
        let p1 = s0.push(old);
        let p2 = p1.push(given(s, getters));
        if getters is Some {
            assert(p1.at(getters->0 as int) == s.at(getters->0 as int));
        }
        if methods is Some {
            assert(p2.at(methods->0 as int) == s.at(methods->0 as int));
        }
    }
    if setters is Some {
        let p = s1.push(s1.heap.get(t, name("__newindex")));
        assert(s1.stack == s0.stack);
        assert(p.at(setters->0 as int) == s.at(setters->0 as int));
        if getters is Some || methods is Some {
            assert(s1.memory[3] == m[10]);
            assert(m[3] is Some && m[10] is Some);
        }
    }
}

/// A relative index counts from the top as it is when the value is taken: on top of the metatable
/// lie the old entry, and, when the methods are taken, the getters.
pub proof fn law_metatable_counts_from_the_top<O>(s: State<O>, t: u64, g: i32, m: i32)
    requires
        s.wf(),
        1 <= g <= s.stack.len() + 1,
        1 <= m <= s.stack.len() + 2,
        grants(s.memory, 7),
    ensures
        ({
            let on = s.stack.push(s.heap.get(t, name("__index")));
            let both = on.push(on[on.len() - g]);
            let none = on.push(Value::Nil);
            let over = s.stack.push(s.heap.get(t, name("__newindex")));
            let a = s.memory[3]->0;
            let h1 = index_wrapped(s, t, Some((-g) as i32), Some((-m) as i32)).heap;
            let h2 = index_wrapped(s, t, None, Some((-m) as i32)).heap;
            let h3 = newindex_wrapped(s, t, Some((-g) as i32)).heap;
            &&& h1.closures[a].upvalues[1] == on[on.len() - g]
            &&& h1.closures[a].upvalues[2] == both[both.len() - m]
            &&& h2.closures[a].upvalues[2] == none[none.len() - m]
            &&& h3.closures[a].upvalues[1] == over[over.len() - g]
        }),
{
}

/// A read of a field for which there is a getter calls that getter with the userdata, and gives
/// its first result, or nil without any; an error of the getter goes on.
pub proof fn law_getter_gives_the_field<O>(s: State<O>, getters: u64)
    requires
        s.stack.len() >= 2,
        s.upvalues.len() == 3,
        s.upvalues[1] == Value::Table(getters),
        s.grows(2),
        s.stack.len() <= 1000000,
        !(s.heap.get(getters, s.stack.last()) is Nil),
    ensures
        ({
            let n = s.stack.len();
            let (u, r) = meta_index(s);
            &&& u.calls == s.calls.push(
                Call::Function(
                    s.heap.get(getters, s.stack.last()),
                    seq![s.stack[n - 2]],
                ),
            )
            &&& u.heap == s.replied().heap
            &&& match s.reply().outcome {
                Outcome::Returns(vs) => {
                    &&& r == Ok::<i32, Raised>(1)
                    &&& u.stack == s.stack.take(n - 2).push(
                        if vs.len() > 0 {
                            vs[0]
                        } else {
                            Value::Nil
                        },
                    )
                },
                Outcome::Raises(status, v) => {
                    &&& r == Err::<i32, Raised>(Raised { status })
                    &&& u.error == v
                },
            }
        }),
{
    let n = s.stack.len();
    let getter = s.heap.get(getters, s.stack.last());
    let c = s.grown(2).with_stack(s.stack.take(n - 2).push(getter).push(s.stack[n - 2]));
    assert(c.below(1) =~= s.stack.take(n - 2));
    assert(c.args(1) =~= seq![s.stack[n - 2]]);
    match s.reply().outcome {
        Outcome::Returns(vs) => {
            let v = if vs.len() > 0 { vs[0] } else { Value::Nil };
            assert(meta_index(s).0.stack =~= s.stack.take(n - 2).push(v));
        },
        _ => {},
    }
}

/// `table` is nil, or a table that holds nothing under the key `k`.
pub open spec fn unanswered<O>(s: State<O>, table: Value, k: Value) -> bool {
    table is Nil || table is Table && s.heap.get(table->Table_0, k) is Nil
}

/// A read of a field for which there is no getter but a method gives that method, and calls
/// nothing.
pub proof fn law_method_is_given<O>(s: State<O>, methods: u64)
    requires
        s.stack.len() >= 2,
        s.upvalues.len() == 3,
        unanswered(s, s.upvalues[1], s.stack.last()),
        s.upvalues[2] == Value::Table(methods),
        s.grows(2),
        !(s.heap.get(methods, s.stack.last()) is Nil),
    ensures
        meta_index(s).1 == Ok::<i32, Raised>(1),
        meta_index(s).0.stack == s.stack.take(s.stack.len() - 2).push(
            s.heap.get(methods, s.stack.last()),
        ),
        meta_index(s).0.calls == s.calls,
        meta_index(s).0.heap == s.heap,
{
}

/// A read of a field that is neither goes to the old `__index`: a function is called with the
/// userdata and the key.
pub proof fn law_old_index_function_is_called<O>(s: State<O>)
    requires
        s.stack.len() >= 2,
        s.upvalues.len() == 3,
        unanswered(s, s.upvalues[1], s.stack.last()),
        unanswered(s, s.upvalues[2], s.stack.last()),
        s.upvalues[0] is CFunction || s.upvalues[0] is Closure,
        s.grows(2),
        s.stack.len() <= 1000000,
    ensures
        ({
            let n = s.stack.len();
            let (u, r) = meta_index(s);
            &&& u.calls == s.calls.push(
                Call::Function(s.upvalues[0], seq![s.stack[n - 2], s.stack[n - 1]]),
            )
            &&& match s.reply().outcome {
                Outcome::Returns(vs) => {
                    &&& r == Ok::<i32, Raised>(1)
                    &&& u.stack == s.stack.take(n - 2).push(
                        if vs.len() > 0 {
                            vs[0]
                        } else {
                            Value::Nil
                        },
                    )
                },
                Outcome::Raises(status, v) => {
                    &&& r == Err::<i32, Raised>(Raised { status })
                    &&& u.error == v
                },
            }
        }),
{
    let n = s.stack.len();
    let f = s.upvalues[0];
    let c = s.grown(2).with_stack(
        s.stack.take(n - 2).push(f).push(s.stack[n - 2]).push(s.stack[n - 1]),
    );
    assert(c.below(2) =~= s.stack.take(n - 2));
    assert(c.args(2) =~= seq![s.stack[n - 2], s.stack[n - 1]]);
    match s.reply().outcome {
        Outcome::Returns(vs) => {
            let v = if vs.len() > 0 { vs[0] } else { Value::Nil };
            assert(meta_index(s).0.stack =~= s.stack.take(n - 2).push(v));
        },
        _ => {},
    }
}

/// A table in the place of the old `__index` is indexed with the key: its entry is given, or nil
/// where neither it nor its metatable has one.
pub proof fn law_old_index_table_is_indexed<O>(s: State<O>, t: u64)
    requires
        s.stack.len() >= 2,
        s.upvalues.len() == 3,
        unanswered(s, s.upvalues[1], s.stack.last()),
        unanswered(s, s.upvalues[2], s.stack.last()),
        s.upvalues[0] == Value::Table(t),
        s.grows(2),
        !(s.heap.get(t, s.stack.last()) is Nil) || s.heap.table(t).metatable is None,
    ensures
        meta_index(s).1 == Ok::<i32, Raised>(1),
        meta_index(s).0.stack.last() == s.heap.get(t, s.stack.last()),
        meta_index(s).0.calls == s.calls,
        meta_index(s).0.heap == s.heap,
{
}

/// Without an old `__index` the read of an unknown field is an error that names the field, where
/// there is memory for the message: a string up to a zero byte, a number by its string, and
/// anything else by a word for nothing.
pub proof fn law_unknown_field_is_named<O>(s: State<O>)
    requires
        s.stack.len() >= 2,
        s.upvalues.len() == 3,
        unanswered(s, s.upvalues[1], s.stack.last()),
        unanswered(s, s.upvalues[2], s.stack.last()),
        s.upvalues[0] is Nil,
        s.grows(2),
    ensures
        ({
            let (u, r) = meta_index(s);
            let key = s.stack.last();
            let g = s.grown(2);
            let numeric = key is Integer || key is Number;
            let field = match key {
                Value::Str(f) => c_string(f),
                Value::Integer(_) | Value::Number { .. } => c_string(s.env.string(key)->0),
                _ => vstd::utf8::encode_utf8("(null)"@),
            };
            &&& u.calls == s.calls && u.heap == s.heap
            &&& if g.grant() && (numeric ==> g.spent().grant()) {
                &&& r == Err::<i32, Raised>(Raised { status: Status::ErrRun })
                &&& u.error == Value::Str(
                    s.text() + (vstd::utf8::encode_utf8("attempt to get an unknown field '"@)
                        + field + vstd::utf8::encode_utf8("'"@)),
                )
            } else {
                &&& r == Err::<i32, Raised>(Raised { status: Status::ErrMem })
                &&& u.error == Value::Str(vstd::utf8::encode_utf8("not enough memory"@))
            }
        }),
{
    assert(s.grown(2).at(-1) == s.stack.last());
}

/// An assignment to a field for which there is a setter calls that setter with the userdata and
/// the value; an error of the setter goes on.
pub proof fn law_setter_gets_the_value<O>(s: State<O>, setters: u64)
    requires
        s.stack.len() >= 3,
        s.upvalues.len() == 2,
        s.upvalues[1] == Value::Table(setters),
        s.grows(2),
        s.stack.len() <= 1000000,
        !(s.heap.get(setters, s.stack[s.stack.len() - 2]) is Nil),
    ensures
        ({
            let n = s.stack.len();
            let (u, r) = meta_newindex(s);
            &&& u.calls == s.calls.push(
                Call::Function(
                    s.heap.get(setters, s.stack[n - 2]),
                    seq![s.stack[n - 3], s.stack[n - 1]],
                ),
            )
            &&& match s.reply().outcome {
                Outcome::Returns(_) => r == Ok::<i32, Raised>(0) && u.stack == s.stack.take(n - 3),
                Outcome::Raises(status, v) => {
                    &&& r == Err::<i32, Raised>(Raised { status })
                    &&& u.error == v
                },
            }
        }),
{
    let n = s.stack.len();
    let setter = s.heap.get(setters, s.stack[n - 2]);
    let c = s.grown(2).with_stack(
        s.stack.take(n - 3).push(setter).push(s.stack[n - 3]).push(s.stack[n - 1]),
    );
    assert(c.below(2) =~= s.stack.take(n - 3));
    assert(c.args(2) =~= seq![s.stack[n - 3], s.stack[n - 1]]);
    match s.reply().outcome {
        Outcome::Returns(vs) => {
            assert(meta_newindex(s).0.stack =~= s.stack.take(n - 3));
        },
        _ => {},
    }
}

/// An assignment to a field without a setter goes to the old `__newindex`: a function is called
/// with the userdata, the key and the value.
pub proof fn law_old_newindex_function_is_called<O>(s: State<O>)
    requires
        s.stack.len() >= 3,
        s.upvalues.len() == 2,
        unanswered(s, s.upvalues[1], s.stack[s.stack.len() - 2]),
        s.upvalues[0] is CFunction || s.upvalues[0] is Closure,
        s.grows(2),
        s.stack.len() <= 1000000,
    ensures
        ({
            let n = s.stack.len();
            let (u, r) = meta_newindex(s);
            &&& u.calls == s.calls.push(
                Call::Function(
                    s.upvalues[0],
                    seq![s.stack[n - 3], s.stack[n - 2], s.stack[n - 1]],
                ),
            )
            &&& match s.reply().outcome {
                Outcome::Returns(_) => r == Ok::<i32, Raised>(0) && u.stack == s.stack.take(n - 3),
                Outcome::Raises(status, v) => {
                    &&& r == Err::<i32, Raised>(Raised { status })
                    &&& u.error == v
                },
            }
        }),
{
    let n = s.stack.len();
    let f = s.upvalues[0];
    let c = s.grown(2).with_stack(
        s.stack.take(n - 3).push(f).push(s.stack[n - 3]).push(s.stack[n - 2]).push(
            s.stack[n - 1],
        ),
    );
    assert(c.below(3) =~= s.stack.take(n - 3));
    assert(c.args(3) =~= seq![s.stack[n - 3], s.stack[n - 2], s.stack[n - 1]]);
    match s.reply().outcome {
        Outcome::Returns(vs) => {
            assert(meta_newindex(s).0.stack =~= s.stack.take(n - 3));
        },
        _ => {},
    }
}

/// A table in the place of the old `__newindex`, without a metatable, gets the value under the
/// key, where there is memory for it; nothing else changes in it.
pub proof fn law_old_newindex_table_is_assigned_to<O>(s: State<O>, t: u64, k: Value)
    requires
        s.stack.len() >= 3,
        s.upvalues.len() == 2,
        unanswered(s, s.upvalues[1], s.stack[s.stack.len() - 2]),
        s.upvalues[0] == Value::Table(t),
        s.heap.table(t).metatable is None,
        s.stack[s.stack.len() - 2].is_key(),
        s.grows(2),
        s.grown(2).grant(),
    ensures
        meta_newindex(s).1 == Ok::<i32, Raised>(0),
        meta_newindex(s).0.heap.get(t, s.stack[s.stack.len() - 2]) == s.stack.last(),
        k.key() != s.stack[s.stack.len() - 2].key() ==> meta_newindex(s).0.heap.get(t, k)
            == s.heap.get(t, k),
        meta_newindex(s).0.calls == s.calls,
{
}

/// Without an old `__newindex` the assignment to an unknown field is an error that names the
/// field, where there is memory for the message: a string up to a zero byte, a number by its
/// string, and anything else by a word for nothing.
pub proof fn law_unknown_field_is_not_assigned_to<O>(s: State<O>)
    requires
        s.stack.len() >= 3,
        s.upvalues.len() == 2,
        unanswered(s, s.upvalues[1], s.stack[s.stack.len() - 2]),
        s.upvalues[0] is Nil,
        s.grows(2),
    ensures
        ({
            let (u, r) = meta_newindex(s);
            let key = s.stack[s.stack.len() - 2];
            let g = s.grown(2);
            let numeric = key is Integer || key is Number;
            let field = match key {
                Value::Str(f) => c_string(f),
                Value::Integer(_) | Value::Number { .. } => c_string(s.env.string(key)->0),
                _ => vstd::utf8::encode_utf8("(null)"@),
            };
            &&& u.calls == s.calls && u.heap == s.heap
            &&& if g.grant() && (numeric ==> g.spent().grant()) {
                &&& r == Err::<i32, Raised>(Raised { status: Status::ErrRun })
                &&& u.error == Value::Str(
                    s.text() + (vstd::utf8::encode_utf8("attempt to set an unknown field '"@)
                        + field + vstd::utf8::encode_utf8("'"@)),
                )
            } else {
                &&& r == Err::<i32, Raised>(Raised { status: Status::ErrMem })
                &&& u.error == Value::Str(vstd::utf8::encode_utf8("not enough memory"@))
            }
        }),
{
    assert(s.grown(2).at(-2) == s.stack[s.stack.len() - 2]);
}

/// The metatable of a type has the destructor of the type, is closed to scripts, and holds
/// nothing else. That of failures also has the function that gives their text.
pub proof fn law_entries_of_type_metatables(key: TypeKey, k: Value)
    ensures
        gc_metatable(key).get(name("__gc")) == Value::CFunction(CFunction::Destructor(key)),
        gc_metatable(key).get(name("__metatable")) == Value::Boolean(false),
        k.key() != name("__gc") && k.key() != name("__metatable") ==> gc_metatable(key).get(
            k,
        ) is Nil,
        gc_metatable(key).metatable is None,
        failure_metatable().get(name("__tostring")) == Value::CFunction(CFunction::ErrorTostring),
        failure_metatable().get(name("__gc")) == Value::CFunction(
            CFunction::Destructor(FAILURE_KEY),
        ),
        failure_metatable().get(name("__metatable")) == Value::Boolean(false),
        k.key() != name("__gc") && k.key() != name("__metatable") && k.key() != name("__tostring")
            ==> failure_metatable().get(k) is Nil,
{
    lemma_field_names();
    vstd::utf8::encode_utf8_decode_utf8("__tostring"@);
    vstd::utf8::encode_utf8_decode_utf8("__gc"@);
    vstd::utf8::encode_utf8_decode_utf8("__metatable"@);
    reveal_strlit("__tostring");
    reveal_strlit("__gc");
    reveal_strlit("__metatable");
    assert("__tostring"@.len() == 10 && "__gc"@.len() == 4 && "__metatable"@.len() == 11);
}

/// Under `version`, the metamethod `event` of a destructed userdata raises an error.
pub open spec fn raises(version: LuaVersion, event: &str) -> bool {
    destructed_metatable(version).get(name(event)) == Value::CFunction(
        CFunction::DestructedError,
    )
}

proof fn lemma_raises(version: LuaVersion, event: &str, i: int)
    requires
        0 <= i < metamethods(version).len(),
        metamethods(version)[i] == event@,
    ensures
        raises(version, event),
{
    lemma_with_all(
        TableModel::empty(),
        metamethods(version),
        Value::CFunction(CFunction::DestructedError),
        i,
    );
}

/// A destructed userdata cannot be used, whatever is done with it: arithmetic, concatenation,
/// length, comparison, access to fields, calls and conversion to text raise an error under every
/// version.
pub proof fn law_destructed_userdata_is_unusable(version: LuaVersion)
    ensures
        destructed_metatable(version).get(name("__add")) == Value::CFunction(
            CFunction::DestructedError,
        ),
        raises(version, "__add"),
        raises(version, "__sub"),
        raises(version, "__mul"),
        raises(version, "__div"),
        raises(version, "__mod"),
        raises(version, "__pow"),
        raises(version, "__unm"),
        raises(version, "__concat"),
        raises(version, "__len"),
        raises(version, "__eq"),
        raises(version, "__lt"),
        raises(version, "__le"),
        raises(version, "__index"),
        raises(version, "__newindex"),
        raises(version, "__call"),
        raises(version, "__tostring"),
{
    let o: int = if version == LuaVersion::Lua54 || version == LuaVersion::Lua53 {
        14
    } else {
        7
    };
    lemma_raises(version, "__add", 0);
    lemma_raises(version, "__sub", 1);
    lemma_raises(version, "__mul", 2);
    lemma_raises(version, "__div", 3);
    lemma_raises(version, "__mod", 4);
    lemma_raises(version, "__pow", 5);
    lemma_raises(version, "__unm", 6);
    lemma_raises(version, "__concat", o);
    lemma_raises(version, "__len", o + 1);
    lemma_raises(version, "__eq", o + 2);
    lemma_raises(version, "__lt", o + 3);
    lemma_raises(version, "__le", o + 4);
    lemma_raises(version, "__index", o + 5);
    lemma_raises(version, "__newindex", o + 6);
    lemma_raises(version, "__call", o + 7);
    lemma_raises(version, "__tostring", o + 8);
}

/// So do the integer and bitwise operators from Lua 5.3 on, `__pairs` from Lua 5.2 on,
/// `__ipairs` in Lua 5.2 and 5.3, and `__close` in Lua 5.4.
pub proof fn law_destructed_userdata_by_version()
    ensures
        raises(LuaVersion::Lua54, "__idiv") && raises(LuaVersion::Lua53, "__idiv"),
        raises(LuaVersion::Lua54, "__band") && raises(LuaVersion::Lua53, "__band"),
        raises(LuaVersion::Lua54, "__bor") && raises(LuaVersion::Lua53, "__bor"),
        raises(LuaVersion::Lua54, "__bxor") && raises(LuaVersion::Lua53, "__bxor"),
        raises(LuaVersion::Lua54, "__bnot") && raises(LuaVersion::Lua53, "__bnot"),
        raises(LuaVersion::Lua54, "__shl") && raises(LuaVersion::Lua53, "__shl"),
        raises(LuaVersion::Lua54, "__shr") && raises(LuaVersion::Lua53, "__shr"),
        raises(LuaVersion::Lua54, "__pairs"),
        raises(LuaVersion::Lua53, "__pairs"),
        raises(LuaVersion::Lua52, "__pairs"),
        raises(LuaVersion::Lua53, "__ipairs"),
        raises(LuaVersion::Lua52, "__ipairs"),
        raises(LuaVersion::Lua54, "__close"),
{
    let a = LuaVersion::Lua54;
    let b = LuaVersion::Lua53;
    let c = LuaVersion::Lua52;
    lemma_raises(a, "__idiv", 7);
    lemma_raises(b, "__idiv", 7);
    lemma_raises(a, "__band", 8);
    lemma_raises(b, "__band", 8);
    lemma_raises(a, "__bor", 9);
    lemma_raises(b, "__bor", 9);
    lemma_raises(a, "__bxor", 10);
    lemma_raises(b, "__bxor", 10);
    lemma_raises(a, "__bnot", 11);
    lemma_raises(b, "__bnot", 11);
    lemma_raises(a, "__shl", 12);
    lemma_raises(b, "__shl", 12);
    lemma_raises(a, "__shr", 13);
    lemma_raises(b, "__shr", 13);
    lemma_raises(a, "__pairs", 23);
    lemma_raises(b, "__pairs", 23);
    lemma_raises(c, "__pairs", 16);
    lemma_raises(b, "__ipairs", 24);
    lemma_raises(c, "__ipairs", 17);
    lemma_raises(a, "__close", 24);
}

/// The metatable of destructed userdata holds nothing but functions that raise an error, and has
/// no metatable of its own.
pub proof fn law_destructed_metatable_holds_nothing_else(version: LuaVersion, k: Value)
    ensures
        ({
            let v = destructed_metatable(version).get(k);
            v is Nil || v == Value::CFunction(CFunction::DestructedError)
        }),
        destructed_metatable(version).metatable is None,
{
    lemma_only(metamethods(version), Value::CFunction(CFunction::DestructedError), k);
}

proof fn lemma_only(names: Seq<Seq<char>>, v: Value, k: Value)
    requires
        !(v is Nil),
    ensures
        ({
            let w = with_all(TableModel::empty(), names, v).get(k);
            w is Nil || w == v
        }),
        with_all(TableModel::empty(), names, v).metatable is None,
    decreases names.len(),
{
    if names.len() > 0 {
        lemma_only(names.drop_last(), v, k);
    }
}

} // verus!

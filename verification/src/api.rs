//! The interpreter's C API, as the library uses it.
//!
//! `Lua` is the C API over a `State`: every call says what it makes of the state. A call that
//! can raise a Lua error returns `Err(Raised)`, with the error object in flight; the caller
//! passes it on, and the innermost protected call catches it.

use vstd::prelude::*;

use crate::state::adjust;
use crate::state::c_string;
use crate::state::known;
use crate::state::memory_message;
use crate::state::rotated;
use crate::state::Call;
use crate::state::ClosureModel;
use crate::state::Heap;
use crate::state::Outcome;
use crate::state::State;
use crate::state::TableModel;
use crate::state::UserdataModel;
use crate::value::CFunction;
use crate::value::LuaType;
use crate::value::LuaVersion;
use crate::value::Payload;
use crate::value::PayloadModel;
use crate::value::Pointer;
use crate::value::Raised;
use crate::value::Status;
use crate::value::TypeKey;
use crate::value::Value;
use crate::value::FAILURE_KEY;
use crate::value::MAX_STACK;
use crate::value::MULTRET;

verus! {

/// An interpreter, seen as a state.
pub trait Interp: Sized {
    /// The host values that userdata can hold.
    type Object;

    spec fn view(&self) -> State<Self::Object>;
}

/// A C function that the interpreter can run under protection.
pub trait CFn<L: Interp>: Sized {
    /// What the function hands to the host, besides its results on the stack.
    type Value;

    spec fn function(&self) -> CFunction;

    /// The function can be entered in this state.
    spec fn accepts(&self, s: State<L::Object>) -> bool;

    /// The state that the function leaves, and how it ends: with a number of results, the
    /// topmost values of its frame, or with an error in flight.
    spec fn effect(&self, s: State<L::Object>) -> (
        State<L::Object>,
        Result<(i32, Self::Value), Raised>,
    );

    fn run(self, state: &mut L) -> (r: Result<(i32, Self::Value), Raised>)
        requires
            old(state)@.wf(),
            self.accepts(old(state)@),
        ensures
            final(state)@ == self.effect(old(state)@).0,
            r == self.effect(old(state)@).1,
            final(state)@.wf(),
            old(state)@.ready() ==> final(state)@.ready(),
            final(state)@.env == old(state)@.env,
            r matches Ok((n, _)) ==> 0 <= n <= final(state)@.stack.len(),
            r matches Err(e) ==> known(e.status, old(state)@.env.version),
    ;
}

/// What becomes of the error `v`, raised in `s`, when the message handler `h`, a function with
/// the bound values `upvalues`, is called with it: the state then, the status of the protected
/// call and its error object.
pub open spec fn handled<L: Interp, H: CFn<L>>(
    s: State<L::Object>,
    h: H,
    upvalues: Seq<Value>,
    v: Value,
) -> (State<L::Object>, Status, Value) {
    if !s.can_enter(1) {
        (s.spent(), Status::ErrMem, memory_message())
    } else {
        let (t, r) = h.effect(s.enter(upvalues, seq![v]));
        match r {
            Ok((n, _)) => (
                t,
                Status::ErrRun,
                if n > 0 {
                    t.stack[t.stack.len() - n]
                } else {
                    Value::Nil
                },
            ),
            // An error inside the handler is the interpreter's to settle, but for a lack of
            // memory.
            Err(e) => if e.status == Status::ErrMem {
                (t, Status::ErrMem, t.error)
            } else {
                match t.reply().outcome {
                    Outcome::Raises(status, w) => (t.replied(), status, w),
                    Outcome::Returns(_) => (t.replied(), Status::ErrErr, t.error),
                }
            },
        }
    }
}

/// The handler `h` can be called with the error `v`, raised in `s`.
pub open spec fn handler_accepts<L: Interp, H: CFn<L>>(
    s: State<L::Object>,
    h: H,
    upvalues: Seq<Value>,
    v: Value,
) -> bool {
    s.can_enter(1) ==> h.accepts(s.enter(upvalues, seq![v]))
}

/// A protected call of the library's C function `b`, with the handler `h` at `msgh`: the state
/// afterwards, the status, and what the function handed to the host.
pub open spec fn pcall_run<L: Interp, B: CFn<L>, H: CFn<L>>(
    s: State<L::Object>,
    b: B,
    h: H,
    nargs: int,
    nresults: int,
    msgh: int,
) -> (State<L::Object>, Status, Option<B::Value>) {
    let below = s.below(nargs);
    if !s.can_enter(nargs) {
        (s.back(s.spent(), below.push(memory_message())), Status::ErrMem, None)
    } else {
        let (t, r) = b.effect(s.enter(s.heap.upvalues(s.callee(nargs)), s.args(nargs)));
        match r {
            Ok((n, v)) => {
                let stack = below + adjust(t.stack.skip(t.stack.len() - n), nresults);
                if stack.len() <= MAX_STACK {
                    (s.back(t, stack), Status::Success, Some(v))
                } else {
                    (s.back(t, below.push(memory_message())), Status::ErrMem, None)
                }
            },
            Err(e) => if e.status == Status::ErrRun {
                let (u, status, w) = handled::<L, H>(t, h, s.heap.upvalues(s.at(msgh)), t.error);
                (s.back(u, below.push(w)), status, None)
            } else {
                (s.back(t, below.push(t.error)), e.status, None)
            },
        }
    }
}

/// A protected call, without a message handler, of a function that is not this library's.
pub open spec fn pcall<O>(s: State<O>, nargs: int, nresults: int) -> (State<O>, Status) {
    let below = s.below(nargs);
    let t = s.asked(s.requested(nargs));
    match s.reply().outcome {
        Outcome::Returns(vs) => {
            let stack = below + adjust(vs, nresults);
            if stack.len() <= MAX_STACK {
                (s.back(t, stack), Status::Success)
            } else {
                (s.back(t, below.push(memory_message())), Status::ErrMem)
            }
        },
        Outcome::Raises(status, v) => (s.back(t, below.push(v)), status),
    }
}

/// The same with the message handler `h` at `msgh`.
pub open spec fn xpcall<L: Interp, H: CFn<L>>(
    s: State<L::Object>,
    h: H,
    nargs: int,
    nresults: int,
    msgh: int,
) -> (State<L::Object>, Status) {
    match s.reply().outcome {
        Outcome::Raises(Status::ErrRun, v) => {
            let (u, status, w) = handled::<L, H>(
                s.asked(s.requested(nargs)),
                h,
                s.heap.upvalues(s.at(msgh)),
                v,
            );
            (s.back(u, s.below(nargs).push(w)), status)
        },
        _ => pcall(s, nargs, nresults),
    }
}

/// `lua_gettable` on the table `t` with the key on top.
pub open spec fn gettable<O>(s: State<O>, t: u64) -> (State<O>, Result<(), Raised>) {
    let rest = s.stack.drop_last();
    let a = s.asked(Call::Index(Value::Table(t), s.stack.last()));
    let v = s.heap.get(t, s.stack.last());
    if !(v is Nil) || s.heap.metamethod(s.heap.table(t).metatable, "__index") is Nil {
        (s.with_stack(rest.push(v)), Ok(()))
    } else {
        match s.reply().outcome {
            Outcome::Returns(vs) => (
                a.with_stack(rest.push(adjust(vs, 1)[0])),
                Ok(()),
            ),
            Outcome::Raises(status, w) => (a.throw(w), Err(Raised { status })),
        }
    }
}

/// `lua_settable` on the table `t` with a key and a value on top.
pub open spec fn settable<O>(s: State<O>, t: u64) -> (State<O>, Result<(), Raised>) {
    let n = s.stack.len() as int;
    let k = s.stack[n - 2];
    let v = s.stack[n - 1];
    let rest = s.stack.take(n - 2);
    let a = s.asked(Call::Newindex(Value::Table(t), k, v));
    let newindex = s.heap.metamethod(s.heap.table(t).metatable, "__newindex");
    if !(s.heap.get(t, k) is Nil) || newindex is Nil {
        rawset(s, t)
    } else {
        match s.reply().outcome {
            Outcome::Returns(_) => (a.with_stack(rest), Ok(())),
            Outcome::Raises(status, w) => (a.throw(w), Err(Raised { status })),
        }
    }
}

/// A message that the interpreter writes goes in flight, if there is memory for it, and else the
/// lack of memory.
pub open spec fn complaint<T, O>(s: State<O>, message: Seq<u8>) -> (State<O>, Result<T, Raised>) {
    if s.grant() {
        (
            s.spent().texted().throw(Value::Str(message)),
            Err(Raised { status: Status::ErrRun }),
        )
    } else {
        (s.out_of_memory(), Err(Raised { status: Status::ErrMem }))
    }
}

/// `lua_rawset` on the table `t` with a key and a value on top.
pub open spec fn rawset<O>(s: State<O>, t: u64) -> (State<O>, Result<(), Raised>) {
    let n = s.stack.len() as int;
    let k = s.stack[n - 2];
    if !k.is_key() {
        complaint(s, s.text())
    } else if s.grant() {
        (
            s.spent().with_stack(s.stack.take(n - 2)).with_heap(s.heap.set(t, k, s.stack[n - 1])),
            Ok(()),
        )
    } else {
        (s.out_of_memory(), Err(Raised { status: Status::ErrMem }))
    }
}

/// `luaL_tolstring` of the value `v`. A string is its own text, unless strings have a metamethod
/// for it.
pub open spec fn tolstring<O>(s: State<O>, v: Value) -> (State<O>, Result<(), Raised>) {
    if v is Str && s.heap.metamethod(s.heap.metatable(v), "__tostring") is Nil {
        (s.push(v), Ok(()))
    } else {
        let t = s.asked(Call::Text(v));
        match s.reply().outcome {
            Outcome::Returns(vs) => if vs.len() > 0 && vs[0] is Str {
                (t.push(vs[0]), Ok(()))
            } else {
                complaint(t, t.text())
            },
            Outcome::Raises(status, w) => (t.throw(w), Err(Raised { status })),
        }
    }
}

/// `lua_tostring` of what `idx` names: a number turns into its string, where there is memory for
/// that.
pub open spec fn tostring<O>(s: State<O>, idx: int) -> (
    State<O>,
    Result<Option<Seq<u8>>, Raised>,
) {
    let v = s.at(idx);
    let text = s.env.string(v);
    if v.tag() != LuaType::Number {
        (s, Ok(text))
    } else if s.grant() {
        (
            s.spent().with_stack(s.stack.update(s.pos(idx), Value::Str(text->0))),
            Ok(text),
        )
    } else {
        (s.out_of_memory(), Err(Raised { status: Status::ErrMem }))
    }
}

/// `luaL_traceback` from `level` on, with the message `msg` in front, which ends at its first
/// zero byte.
pub open spec fn traceback<O>(s: State<O>, msg: Option<Seq<u8>>, level: int) -> (
    State<O>,
    Result<(), Raised>,
) {
    if s.grant() {
        let head = match msg {
            Some(m) => c_string(m),
            None => Seq::empty(),
        };
        let t = State { calls: s.calls.push(Call::Traceback(level)), ..s.spent().texted() };
        (t.push(Value::Str(head + s.text())), Ok(()))
    } else {
        (s.out_of_memory(), Err(Raised { status: Status::ErrMem }))
    }
}

/// A stack overflow goes in flight: its message holds `msg`, and the position of the caller in
/// front.
pub open spec fn overflowed<T, O>(s: State<O>, msg: Option<Seq<char>>) -> (
    State<O>,
    Result<T, Raised>,
) {
    let m = match msg {
        Some(m) => "stack overflow ("@ + m + ")"@,
        None => "stack overflow"@,
    };
    complaint(s, s.text() + vstd::utf8::encode_utf8(m))
}

/// The C API.
pub trait Lua: Interp {
    /// The dialect of the interpreter.
    fn version(&self) -> (v: LuaVersion)
        ensures
            v == self@.env.version,
    ;

    /// The running thread.
    fn thread(&self) -> (t: u64)
        ensures
            t == self@.env.thread,
    ;

    /// `lua_gettop`.
    fn gettop(&self) -> (n: i32)
        requires
            self@.wf(),
        ensures
            n == self@.stack.len(),
    ;

    /// `lua_settop`.
    fn settop(&mut self, idx: i32)
        requires
            old(self)@.wf(),
            0 <= idx <= old(self)@.room || -old(self)@.stack.len() - 1 <= idx < 0,
        ensures
            ({
                let s = old(self)@;
                let n = if idx >= 0 { idx as int } else { s.stack.len() + idx + 1 };
                final(self)@ == s.with_stack(adjust(s.stack, n))
            }),
    ;

    /// `lua_checkstack`.
    fn checkstack(&mut self, n: i32) -> (r: bool)
        requires
            old(self)@.wf(),
            n >= 0,
        ensures
            r == old(self)@.grows(n as int),
            final(self)@ == old(self)@.grown(n as int),
    ;

    /// `luaL_checkstack`: a lack of room is raised as an error, with `msg` in its message.
    fn checkstack_or_raise(&mut self, n: i32, msg: Option<&str>) -> (r: Result<(), Raised>)
        requires
            old(self)@.wf(),
            n >= 0,
        ensures
            ({
                let s = old(self)@;
                let t = s.grown(n as int);
                if s.grows(n as int) {
                    r == Ok::<(), Raised>(()) && final(self)@ == t
                } else {
                    (final(self)@, r) == overflowed::<(), Self::Object>(
                        t,
                        match msg {
                            Some(m) => Some(m@),
                            None => None,
                        },
                    )
                }
            }),
    ;

    /// `lua_pushvalue`.
    fn pushvalue(&mut self, idx: i32)
        requires
            old(self)@.wf(),
            old(self)@.valid(idx as int),
            old(self)@.spare() >= 1,
        ensures
            final(self)@ == old(self)@.push(old(self)@.at(idx as int)),
    ;

    /// `lua_rotate`.
    fn rotate(&mut self, idx: i32, n: i32)
        requires
            old(self)@.wf(),
            old(self)@.on_stack(idx as int),
            -(old(self)@.stack.len() - old(self)@.pos(idx as int)) <= n <= old(self)@.stack.len()
                - old(self)@.pos(idx as int),
        ensures
            final(self)@ == old(self)@.with_stack(
                rotated(old(self)@.stack, old(self)@.pos(idx as int), n as int),
            ),
    ;

    /// `lua_copy`.
    fn copy(&mut self, from: i32, to: i32)
        requires
            old(self)@.wf(),
            old(self)@.valid(from as int),
            old(self)@.on_stack(to as int),
        ensures
            final(self)@ == old(self)@.with_stack(
                old(self)@.stack.update(old(self)@.pos(to as int), old(self)@.at(from as int)),
            ),
    ;

    /// `lua_pushnil`.
    fn pushnil(&mut self)
        requires
            old(self)@.wf(),
            old(self)@.spare() >= 1,
        ensures
            final(self)@ == old(self)@.push(Value::Nil),
    ;

    /// `lua_pushboolean`.
    fn pushboolean(&mut self, b: bool)
        requires
            old(self)@.wf(),
            old(self)@.spare() >= 1,
        ensures
            final(self)@ == old(self)@.push(Value::Boolean(b)),
    ;

    /// `lua_pushcfunction`.
    fn pushcfunction(&mut self, f: CFunction)
        requires
            old(self)@.wf(),
            old(self)@.spare() >= 1,
        ensures
            final(self)@ == old(self)@.push(Value::CFunction(f)),
    ;

    /// `lua_pushlightuserdata`.
    fn pushlightuserdata(&mut self, p: Pointer)
        requires
            old(self)@.wf(),
            old(self)@.spare() >= 1,
        ensures
            final(self)@ == old(self)@.push(Value::LightUserdata(p)),
    ;

    /// `lua_pushlstring`.
    fn pushlstring(&mut self, s: &[u8]) -> (r: Result<(), Raised>)
        requires
            old(self)@.wf(),
            old(self)@.spare() >= 1,
        ensures
            if old(self)@.grant() {
                r == Ok::<(), Raised>(()) && final(self)@ == old(self)@.spent().push(Value::Str(s@))
            } else {
                &&& r == Err::<(), Raised>(Raised { status: Status::ErrMem })
                &&& final(self)@ == old(self)@.out_of_memory()
            },
    ;

    /// `lua_createtable`.
    fn createtable(&mut self, narr: i32, nrec: i32) -> (r: Result<(), Raised>)
        requires
            old(self)@.wf(),
            old(self)@.spare() >= 1,
            narr >= 0,
            nrec >= 0,
        ensures
            ({
                let s = old(self)@;
                if s.grant() {
                    let a = s.memory[0]->0;
                    &&& r == Ok::<(), Raised>(())
                    &&& final(self)@ == s.spent().with_heap(
                        Heap { tables: s.heap.tables.insert(a, TableModel::empty()), ..s.heap },
                    ).push(Value::Table(a))
                } else {
                    &&& r == Err::<(), Raised>(Raised { status: Status::ErrMem })
                    &&& final(self)@ == s.out_of_memory()
                }
            }),
    ;

    /// `lua_newuserdata`: a block for a payload, which is yet to be written.
    fn newuserdata(&mut self) -> (r: Result<u64, Raised>)
        requires
            old(self)@.wf(),
            old(self)@.spare() >= 1,
        ensures
            ({
                let s = old(self)@;
                if s.grant() {
                    let a = s.memory[0]->0;
                    &&& r == Ok::<u64, Raised>(a)
                    &&& final(self)@ == s.spent().with_heap(
                        Heap {
                            userdata: s.heap.userdata.insert(
                                a,
                                UserdataModel { payload: PayloadModel::Vacant, metatable: None },
                            ),
                            ..s.heap
                        },
                    ).push(Value::Userdata(a))
                } else {
                    &&& r == Err::<u64, Raised>(Raised { status: Status::ErrMem })
                    &&& final(self)@ == s.out_of_memory()
                }
            }),
    ;

    /// `lua_pushcclosure` with at least one bound value.
    fn pushcclosure(&mut self, f: CFunction, n: i32) -> (r: Result<(), Raised>)
        requires
            old(self)@.wf(),
            0 < n <= old(self)@.stack.len(),
        ensures
            ({
                let s = old(self)@;
                let p = s.stack.len() - n;
                if s.grant() {
                    let a = s.memory[0]->0;
                    &&& r == Ok::<(), Raised>(())
                    &&& final(self)@ == s.spent().with_heap(
                        Heap {
                            closures: s.heap.closures.insert(
                                a,
                                ClosureModel { function: f, upvalues: s.stack.skip(p) },
                            ),
                            ..s.heap
                        },
                    ).with_stack(s.stack.take(p).push(Value::Closure(a)))
                } else {
                    &&& r == Err::<(), Raised>(Raised { status: Status::ErrMem })
                    &&& final(self)@ == s.out_of_memory()
                }
            }),
    ;

    /// `lua_type`.
    fn type_of(&self, idx: i32) -> (t: LuaType)
        requires
            self@.wf(),
            idx != 0,
        ensures
            t == self@.tag(idx as int),
    ;

    /// `lua_toboolean`.
    fn toboolean(&self, idx: i32) -> (b: bool)
        requires
            self@.wf(),
            self@.valid(idx as int),
        ensures
            b == self@.at(idx as int).truthy(),
    ;

    /// `lua_tointegerx`.
    fn tointegerx(&self, idx: i32) -> (i: Option<i64>)
        requires
            self@.wf(),
            self@.valid(idx as int),
        ensures
            i == self@.env.integer(self@.at(idx as int)),
    ;

    /// `lua_tonumber`, as decimal text.
    fn number_text(&self, idx: i32) -> (t: String)
        requires
            self@.wf(),
            self@.valid(idx as int),
            self@.at(idx as int).tag() == LuaType::Number,
        ensures
            t@ == self@.env.number_text(self@.at(idx as int)),
    ;

    /// `lua_tolstring` of a string.
    fn string(&self, idx: i32) -> (s: Vec<u8>)
        requires
            self@.wf(),
            self@.valid(idx as int),
            self@.at(idx as int) is Str,
        ensures
            s@ == self@.at(idx as int)->Str_0,
    ;

    /// `lua_tostring`: a number turns into its string on the stack.
    fn tostring(&mut self, idx: i32) -> (r: Result<Option<Vec<u8>>, Raised>)
        requires
            old(self)@.wf(),
            old(self)@.on_stack(idx as int),
        ensures
            final(self)@ == tostring(old(self)@, idx as int).0,
            match tostring(old(self)@, idx as int).1 {
                Ok(Some(s)) => r matches Ok(Some(v)) && v@ == s,
                Ok(None) => r matches Ok(None),
                Err(e) => r matches Err(x) && x == e,
            },
    ;

    /// `lua_touserdata`.
    fn touserdata(&self, idx: i32) -> (a: Option<u64>)
        requires
            self@.wf(),
            idx != 0,
        ensures
            a == if self@.valid(idx as int) {
                self@.env.userdata(self@.at(idx as int))
            } else {
                None
            },
    ;

    /// `lua_topointer`.
    fn topointer(&self, idx: i32) -> (a: u64)
        requires
            self@.wf(),
            self@.valid(idx as int),
        ensures
            a == self@.env.address(self@.at(idx as int)),
    ;

    /// `lua_tothread`.
    fn tothread(&self, idx: i32) -> (t: Option<u64>)
        requires
            self@.wf(),
            self@.valid(idx as int),
        ensures
            t == match self@.at(idx as int) {
                Value::Thread(a) => Some(a),
                _ => None,
            },
    ;

    /// `lua_pushthread`: whether the running thread is the main one.
    fn pushthread(&mut self) -> (main: bool)
        requires
            old(self)@.wf(),
            old(self)@.spare() >= 1,
        ensures
            main == old(self)@.env.main_thread,
            final(self)@ == old(self)@.push(Value::Thread(old(self)@.env.thread)),
    ;

    /// `lua_rawequal`.
    fn rawequal(&self, i: i32, j: i32) -> (b: bool)
        requires
            self@.wf(),
            self@.valid(i as int),
            self@.valid(j as int),
        ensures
            b == (self@.at(i as int).key() == self@.at(j as int).key() && !self@.at(
                i as int,
            ).is_nan()),
    ;

    /// `lua_getmetatable`.
    fn getmetatable(&mut self, idx: i32) -> (r: bool)
        requires
            old(self)@.wf(),
            old(self)@.valid(idx as int),
            old(self)@.spare() >= 1,
        ensures
            match old(self)@.heap.metatable(old(self)@.at(idx as int)) {
                Some(t) => r && final(self)@ == old(self)@.push(Value::Table(t)),
                None => !r && final(self)@ == old(self)@,
            },
    ;

    /// `lua_setmetatable`.
    fn setmetatable(&mut self, idx: i32)
        requires
            old(self)@.wf(),
            old(self)@.stack.len() >= 1,
            old(self)@.valid(idx as int),
            match old(self)@.stack.last() {
                Value::Nil => true,
                Value::Table(t) => old(self)@.heap.tables.contains_key(t),
                _ => false,
            },
            match old(self)@.at(idx as int) {
                Value::Table(t) => old(self)@.heap.tables.contains_key(t),
                Value::Userdata(a) => old(self)@.heap.userdata.contains_key(a),
                _ => false,
            },
        ensures
            ({
                let s = old(self)@;
                let m = match s.stack.last() {
                    Value::Table(t) => Some(t),
                    _ => None,
                };
                final(self)@ == s.pop(1).with_heap(s.heap.with_metatable(s.at(idx as int), m))
            }),
    ;

    /// `lua_rawget`.
    fn rawget(&mut self, idx: i32) -> (t: LuaType)
        requires
            old(self)@.wf(),
            old(self)@.stack.len() >= 1,
            old(self)@.valid(idx as int),
            old(self)@.at(idx as int) is Table,
        ensures
            ({
                let s = old(self)@;
                let v = s.heap.get(s.at(idx as int)->Table_0, s.stack.last());
                &&& t == v.tag()
                &&& final(self)@ == s.with_stack(s.stack.drop_last().push(v))
            }),
    ;

    /// `lua_rawset`.
    fn rawset(&mut self, idx: i32) -> (r: Result<(), Raised>)
        requires
            old(self)@.wf(),
            old(self)@.stack.len() >= 2,
            old(self)@.valid(idx as int),
            old(self)@.at(idx as int) is Table,
            old(self)@.heap.tables.contains_key(old(self)@.at(idx as int)->Table_0),
        ensures
            (final(self)@, r) == rawset(old(self)@, old(self)@.at(idx as int)->Table_0),
    ;

    /// `lua_rawgetp`.
    fn rawgetp(&mut self, idx: i32, p: Pointer) -> (t: LuaType)
        requires
            old(self)@.wf(),
            old(self)@.spare() >= 1,
            old(self)@.valid(idx as int),
            old(self)@.at(idx as int) is Table,
        ensures
            ({
                let s = old(self)@;
                let v = s.heap.get(s.at(idx as int)->Table_0, Value::LightUserdata(p));
                &&& t == v.tag()
                &&& final(self)@ == s.push(v)
            }),
    ;

    /// `lua_rawsetp`.
    fn rawsetp(&mut self, idx: i32, p: Pointer) -> (r: Result<(), Raised>)
        requires
            old(self)@.wf(),
            old(self)@.stack.len() >= 1,
            old(self)@.valid(idx as int),
            old(self)@.at(idx as int) is Table,
            old(self)@.heap.tables.contains_key(old(self)@.at(idx as int)->Table_0),
        ensures
            ({
                let s = old(self)@;
                let t = s.at(idx as int)->Table_0;
                if s.grant() {
                    &&& r == Ok::<(), Raised>(())
                    &&& final(self)@ == s.spent().pop(1).with_heap(
                        s.heap.set(t, Value::LightUserdata(p), s.stack.last()),
                    )
                } else {
                    &&& r == Err::<(), Raised>(Raised { status: Status::ErrMem })
                    &&& final(self)@ == s.out_of_memory()
                }
            }),
    ;

    /// `lua_rawgeti`.
    fn rawgeti(&mut self, idx: i32, i: i64) -> (t: LuaType)
        requires
            old(self)@.wf(),
            old(self)@.spare() >= 1,
            old(self)@.valid(idx as int),
            old(self)@.at(idx as int) is Table,
        ensures
            ({
                let s = old(self)@;
                let v = s.heap.get(s.at(idx as int)->Table_0, Value::Integer(i));
                &&& t == v.tag()
                &&& final(self)@ == s.push(v)
            }),
    ;

    /// `lua_gettable`.
    fn gettable(&mut self, idx: i32) -> (r: Result<(), Raised>)
        requires
            old(self)@.wf(),
            old(self)@.stack.len() >= 1,
            old(self)@.valid(idx as int),
            old(self)@.at(idx as int) is Table,
        ensures
            (final(self)@, r) == gettable(old(self)@, old(self)@.at(idx as int)->Table_0),
    ;

    /// `lua_settable`.
    fn settable(&mut self, idx: i32) -> (r: Result<(), Raised>)
        requires
            old(self)@.wf(),
            old(self)@.stack.len() >= 2,
            old(self)@.valid(idx as int),
            old(self)@.at(idx as int) is Table,
            old(self)@.heap.tables.contains_key(old(self)@.at(idx as int)->Table_0),
        ensures
            (final(self)@, r) == settable(old(self)@, old(self)@.at(idx as int)->Table_0),
    ;

    /// `lua_call`.
    fn call(&mut self, nargs: i32, nresults: i32) -> (r: Result<(), Raised>)
        requires
            old(self)@.wf(),
            0 <= nargs < old(self)@.stack.len(),
            nresults >= MULTRET,
        ensures
            (final(self)@, r) == old(self)@.call(nargs as int, nresults as int),
    ;

    /// `lua_pcall` without a message handler.
    fn pcall(&mut self, nargs: i32, nresults: i32) -> (status: Status)
        requires
            old(self)@.wf(),
            0 <= nargs < old(self)@.stack.len(),
            nresults >= MULTRET,
        ensures
            (final(self)@, status) == pcall(old(self)@, nargs as int, nresults as int),
    ;

    /// `lua_pcall` with the message handler `h` at `msgh`.
    fn xpcall<H: CFn<Self>>(&mut self, h: H, nargs: i32, nresults: i32, msgh: i32) -> (status:
        Status)
        requires
            old(self)@.wf(),
            0 <= nargs < old(self)@.stack.len(),
            nresults >= MULTRET,
            old(self)@.on_stack(msgh as int),
            old(self)@.pos(msgh as int) < old(self)@.stack.len() - nargs - 1,
            old(self)@.heap.runs(old(self)@.at(msgh as int), h.function()),
            old(self)@.reply().outcome matches Outcome::Raises(Status::ErrRun, v)
                ==> handler_accepts::<Self, H>(
                old(self)@.asked(old(self)@.requested(nargs as int)),
                h,
                old(self)@.heap.upvalues(old(self)@.at(msgh as int)),
                v,
            ),
        ensures
            (final(self)@, status) == xpcall::<Self, H>(
                old(self)@,
                h,
                nargs as int,
                nresults as int,
                msgh as int,
            ),
            final(self)@.wf(),
            old(self)@.ready() ==> final(self)@.ready(),
            final(self)@.env == old(self)@.env,
            status == Status::Success || known(status, old(self)@.env.version),
    ;

    /// `lua_pcall` of the library's C function `b`, with the message handler `h` at `msgh`.
    fn pcall_run<B: CFn<Self>, H: CFn<Self>>(
        &mut self,
        b: B,
        h: H,
        nargs: i32,
        nresults: i32,
        msgh: i32,
    ) -> (r: (Status, Option<B::Value>))
        requires
            old(self)@.wf(),
            0 <= nargs < old(self)@.stack.len(),
            nresults >= MULTRET,
            old(self)@.heap.runs(old(self)@.callee(nargs as int), b.function()),
            old(self)@.can_enter(nargs as int) ==> b.accepts(
                old(self)@.enter(
                    old(self)@.heap.upvalues(old(self)@.callee(nargs as int)),
                    old(self)@.args(nargs as int),
                ),
            ),
            old(self)@.on_stack(msgh as int),
            old(self)@.pos(msgh as int) < old(self)@.stack.len() - nargs - 1,
            old(self)@.heap.runs(old(self)@.at(msgh as int), h.function()),
            old(self)@.can_enter(nargs as int) ==> ({
                let (t, r) = b.effect(
                    old(self)@.enter(
                        old(self)@.heap.upvalues(old(self)@.callee(nargs as int)),
                        old(self)@.args(nargs as int),
                    ),
                );
                r matches Err(e) && e.status == Status::ErrRun ==> handler_accepts::<Self, H>(
                    t,
                    h,
                    old(self)@.heap.upvalues(old(self)@.at(msgh as int)),
                    t.error,
                )
            }),
        ensures
            (final(self)@, r.0, r.1) == pcall_run::<Self, B, H>(
                old(self)@,
                b,
                h,
                nargs as int,
                nresults as int,
                msgh as int,
            ),
            final(self)@.wf(),
            old(self)@.ready() ==> final(self)@.ready(),
            final(self)@.env == old(self)@.env,
            old(self)@.can_enter(nargs as int) && b.effect(
                old(self)@.enter(
                    old(self)@.heap.upvalues(old(self)@.callee(nargs as int)),
                    old(self)@.args(nargs as int),
                ),
            ).0.heap.cached.contains(FAILURE_KEY) ==> final(self)@.heap.cached.contains(
                FAILURE_KEY,
            ),
            r.0 == Status::Success || known(r.0, old(self)@.env.version),
            r.1 is Some <==> r.0 == Status::Success,
    ;

    /// `lua_error`: the value on top goes in flight.
    fn error(&mut self) -> (e: Raised)
        requires
            old(self)@.wf(),
            old(self)@.stack.len() >= 1,
        ensures
            e == (Raised { status: Status::ErrRun }),
            final(self)@ == old(self)@.pop(1).throw(old(self)@.stack.last()),
    ;

    /// `luaL_error`: the message, with the position of the caller in front, goes in flight.
    fn raise(&mut self, msg: &[u8]) -> (e: Raised)
        requires
            old(self)@.wf(),
        ensures
            (final(self)@, Err::<(), Raised>(e)) == complaint::<(), Self::Object>(
                old(self)@,
                old(self)@.text() + msg@,
            ),
    ;

    /// `luaL_tolstring`.
    fn tolstring(&mut self, idx: i32) -> (r: Result<(), Raised>)
        requires
            old(self)@.wf(),
            old(self)@.spare() >= 1,
            old(self)@.valid(idx as int),
        ensures
            (final(self)@, r) == tolstring(old(self)@, old(self)@.at(idx as int)),
    ;

    /// `luaL_traceback` of the running thread, from `level` on.
    fn traceback(&mut self, msg: Option<&[u8]>, level: i32) -> (r: Result<(), Raised>)
        requires
            old(self)@.wf(),
            old(self)@.spare() >= 1,
            level >= 0,
        ensures
            (final(self)@, r) == traceback(
                old(self)@,
                match msg {
                    Some(m) => Some(m@),
                    None => None,
                },
                level as int,
            ),
    ;

    /// What the userdata block at `a` holds.
    fn payload(&self, a: u64) -> (p: &Payload<Self::Object>)
        requires
            self@.heap.userdata.contains_key(a),
        ensures
            p@ == self@.heap.userdata[a].payload,
    ;

    /// Moves out what the userdata block at `a` holds.
    fn take_payload(&mut self, a: u64) -> (p: Payload<Self::Object>)
        requires
            old(self)@.heap.userdata.contains_key(a),
        ensures
            p@ == old(self)@.heap.userdata[a].payload,
            final(self)@ == old(self)@.with_heap(
                old(self)@.heap.with_payload(a, PayloadModel::Vacant),
            ),
    ;

    /// Writes `p` to the userdata block at `a`.
    fn put_payload(&mut self, a: u64, p: Payload<Self::Object>)
        requires
            old(self)@.heap.userdata.contains_key(a),
        ensures
            final(self)@ == old(self)@.with_heap(old(self)@.heap.with_payload(a, p@)),
    ;

    /// A metatable has been registered for the type `key`.
    fn is_cached(&self, key: TypeKey) -> (b: bool)
        ensures
            b == self@.heap.cached.contains(key),
    ;

    /// Notes that a metatable is registered for the type `key`.
    fn cache(&mut self, key: TypeKey)
        requires
            old(self)@.heap.cached.len() < old(self)@.env.cache_capacity,
        ensures
            final(self)@ == old(self)@.with_heap(
                Heap { cached: old(self)@.heap.cached.insert(key), ..old(self)@.heap },
            ),
    ;
}

} // verus!

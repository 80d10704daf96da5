//! The state of an interpreter, as mathematics.
//!
//! A `State` is what one C function sees of the interpreter: its own stack frame, the values
//! bound to it, and everything that lives in the heap. Whatever only the interpreter can decide
//! (whether memory is to be had, what a called function answers, the text of a traceback) is
//! part of the state as well, as the sequence of the answers that it is going to give. A
//! statement that holds of every state thus holds whatever the interpreter answers.
//!
//! Two things are left out. The garbage collector takes its turns unseen: finalizers that run in
//! an allocation, and, in Lua 5.2 and 5.3, their errors that come out of it, are no part of the
//! state. Neither is the C stack, which can overflow when a function is entered.

use vstd::prelude::*;

use crate::value::CFunction;
use crate::value::FailureModel;
use crate::value::LuaType;
use crate::value::LuaVersion;
use crate::value::PayloadModel;
use crate::value::Pointer;
use crate::value::Raised;
use crate::value::Status;
use crate::value::TypeKey;
use crate::value::Value;
use crate::value::FAILURE_KEY;
use crate::value::MAX_STACK;
use crate::value::MIN_STACK;
use crate::value::MULTRET;
use crate::value::REGISTRY_INDEX;

verus! {

/// A table: its entries other than nil, and its metatable.
#[verifier::ext_equal]
pub ghost struct TableModel {
    pub entries: Map<Value, Value>,
    pub metatable: Option<u64>,
}

impl TableModel {
    pub open spec fn empty() -> TableModel {
        TableModel { entries: Map::empty(), metatable: None }
    }

    pub open spec fn get(self, k: Value) -> Value {
        if self.entries.contains_key(k.key()) {
            self.entries[k.key()]
        } else {
            Value::Nil
        }
    }

    pub open spec fn set(self, k: Value, v: Value) -> TableModel {
        TableModel {
            entries: if v is Nil {
                self.entries.remove(k.key())
            } else {
                self.entries.insert(k.key(), v)
            },
            ..self
        }
    }
}

/// A full userdata.
#[verifier::ext_equal]
#[verifier::reject_recursive_types(O)]
pub ghost struct UserdataModel<O> {
    pub payload: PayloadModel<O>,
    pub metatable: Option<u64>,
}

/// A C function with the values bound to it.
#[verifier::ext_equal]
pub ghost struct ClosureModel {
    pub function: CFunction,
    pub upvalues: Seq<Value>,
}

/// The string value with the text `s`.
pub open spec fn name(s: &str) -> Value {
    Value::Str(vstd::utf8::encode_utf8(s@))
}

/// The registry holds a metatable of this library under the address `p`.
pub open spec fn own(p: Pointer) -> bool {
    p is GcMetatable || p is DestructedMetatable
}

/// The heap, by address, the metatables that basic types share, and the types of the host whose
/// metatables have been registered.
#[verifier::ext_equal]
#[verifier::reject_recursive_types(O)]
pub ghost struct Heap<O> {
    pub tables: Map<u64, TableModel>,
    pub userdata: Map<u64, UserdataModel<O>>,
    pub closures: Map<u64, ClosureModel>,
    /// The metatables that all values of a type share, for types other than tables and full
    /// userdata.
    pub basic: Map<LuaType, u64>,
    /// The address of the registry table.
    pub registry: u64,
    pub cached: Set<TypeKey>,
}

impl<O> Heap<O> {
    pub open spec fn table(self, t: u64) -> TableModel {
        if self.tables.contains_key(t) {
            self.tables[t]
        } else {
            TableModel::empty()
        }
    }

    pub open spec fn get(self, t: u64, k: Value) -> Value {
        self.table(t).get(k)
    }

    pub open spec fn set(self, t: u64, k: Value, v: Value) -> Heap<O> {
        Heap { tables: self.tables.insert(t, self.table(t).set(k, v)), ..self }
    }

    /// The registry's entry under the address `p`.
    pub open spec fn registered(self, p: Pointer) -> Value {
        self.get(self.registry, Value::LightUserdata(p))
    }

    pub open spec fn register(self, p: Pointer, v: Value) -> Heap<O> {
        self.set(self.registry, Value::LightUserdata(p), v)
    }

    pub open spec fn metatable(self, v: Value) -> Option<u64> {
        match v {
            Value::Table(t) => self.table(t).metatable,
            Value::Userdata(a) => if self.userdata.contains_key(a) {
                self.userdata[a].metatable
            } else {
                None
            },
            _ => if self.basic.contains_key(v.tag()) {
                Some(self.basic[v.tag()])
            } else {
                None
            },
        }
    }

    /// The value whose metatable is `m` names `event` in it.
    pub open spec fn metamethod(self, m: Option<u64>, event: &str) -> Value {
        match m {
            Some(t) => self.get(t, name(event)),
            None => Value::Nil,
        }
    }

    /// The values bound to the function `f`.
    pub open spec fn upvalues(self, f: Value) -> Seq<Value> {
        match f {
            Value::Closure(a) => if self.closures.contains_key(a) {
                self.closures[a].upvalues
            } else {
                Seq::empty()
            },
            _ => Seq::empty(),
        }
    }

    /// `f` runs the C function `c`.
    pub open spec fn runs(self, f: Value, c: CFunction) -> bool {
        ||| f == Value::CFunction(c)
        ||| f matches Value::Closure(a) && self.closures.contains_key(a)
            && self.closures[a].function == c
    }

    pub open spec fn with_payload(self, a: u64, p: PayloadModel<O>) -> Heap<O> {
        Heap {
            userdata: self.userdata.insert(
                a,
                UserdataModel { payload: p, ..self.userdata[a] },
            ),
            ..self
        }
    }

    pub open spec fn with_metatable(self, v: Value, m: Option<u64>) -> Heap<O> {
        match v {
            Value::Table(t) => Heap {
                tables: self.tables.insert(t, TableModel { metatable: m, ..self.table(t) }),
                ..self
            },
            Value::Userdata(a) => Heap {
                userdata: self.userdata.insert(
                    a,
                    UserdataModel { metatable: m, ..self.userdata[a] },
                ),
                ..self
            },
            _ => self,
        }
    }

    /// The block behind `v`, where `v` is a full userdata that carries the metatable registered
    /// for the type `key`.
    pub open spec fn gc_userdata(self, v: Value, key: TypeKey) -> Option<u64> {
        match (v, self.metatable(v)) {
            (Value::Userdata(a), Some(t)) => if self.registered(Pointer::GcMetatable(key))
                == Value::Table(t) {
                Some(a)
            } else {
                None
            },
            _ => None,
        }
    }

    /// The host failure that `v` wraps.
    pub open spec fn failure(self, v: Value) -> Option<FailureModel> {
        match self.gc_userdata(v, FAILURE_KEY) {
            Some(a) => match self.userdata[a].payload {
                PayloadModel::Failure(w) => Some(w),
                _ => None,
            },
            None => None,
        }
    }

    /// `v` wraps a panic, resumed or not.
    pub open spec fn wraps_panic(self, v: Value) -> bool {
        self.failure(v) matches Some(FailureModel::Panic(_))
    }

    /// Tables that are named exist; a userdata with the failure metatable holds a failure; and
    /// the metatables of different types, of destructed userdata and of basic types are different
    /// ones.
    pub open spec fn wf(self) -> bool {
        &&& self.cached.finite()
        &&& self.tables.contains_key(self.registry)
        &&& forall|a: u64| #[trigger]
            self.userdata.contains_key(a) && self.userdata[a].metatable is Some
                ==> self.tables.contains_key(self.userdata[a].metatable->0)
        &&& forall|a: u64| #[trigger]
            self.userdata.contains_key(a) && self.userdata[a].metatable is Some
                && self.registered(Pointer::GcMetatable(FAILURE_KEY)) == Value::Table(
                self.userdata[a].metatable->0,
            ) ==> self.userdata[a].payload is Failure
        &&& forall|p: Pointer| #[trigger]
            self.registered(p) is Table ==> self.tables.contains_key(self.registered(p)->Table_0)
        &&& forall|p: Pointer, q: Pointer|
            own(p) && own(q) && p != q && (#[trigger] self.registered(p)) is Table
                ==> self.registered(p) != #[trigger] self.registered(q)
        &&& forall|b: LuaType| #[trigger]
            self.basic.contains_key(b) ==> self.tables.contains_key(self.basic[b])
        &&& forall|b: LuaType, p: Pointer| #[trigger]
            self.basic.contains_key(b) && own(p) ==> #[trigger] self.registered(p) != Value::Table(
                self.basic[b],
            )
    }

    /// No object lives at `a`.
    pub open spec fn free(self, a: u64) -> bool {
        &&& a != 0
        &&& !self.tables.contains_key(a)
        &&& !self.userdata.contains_key(a)
        &&& !self.closures.contains_key(a)
    }

    /// The error print buffer is in place: the address and text of it.
    pub open spec fn buffer(self) -> Option<(u64, Seq<char>)> {
        match self.registered(Pointer::ErrorPrintBuffer) {
            Value::Userdata(a) => if self.userdata.contains_key(a) {
                match self.userdata[a].payload {
                    PayloadModel::Text(s) => Some((a, s)),
                    _ => None,
                }
            } else {
                None
            },
            _ => None,
        }
    }
}

/// How a called function ends.
pub ghost enum Outcome {
    Returns(Seq<Value>),
    Raises(Status, Value),
}

/// What the interpreter was asked for, when the answer was its own to give.
pub ghost enum Call {
    /// The call of a function that is not this library's, with its arguments.
    Function(Value, Seq<Value>),
    /// What an object holds under a key, where a metamethod answers.
    Index(Value, Value),
    /// The assignment of a value to a key of an object, where a metamethod sees to it.
    Newindex(Value, Value, Value),
    /// The text of a value.
    Text(Value),
    /// A traceback from a level on.
    Traceback(int),
}

/// What a function that is not this library's does when it is called: it leaves the heap as
/// `heap` says, where it changes it, and ends with `outcome`.
#[verifier::ext_equal]
#[verifier::reject_recursive_types(O)]
pub ghost struct Reply<O> {
    pub heap: Option<Heap<O>>,
    pub outcome: Outcome,
}

/// What stays the same for as long as the interpreter runs.
pub ghost struct Env {
    pub version: LuaVersion,
    /// The running thread, and whether it is the main one.
    pub thread: u64,
    pub main_thread: bool,
    /// How many types the metatable cache has room for.
    pub cache_capacity: nat,
    /// The strings that read as an integer, with that integer.
    pub numerals: Map<Seq<u8>, i64>,
    /// The texts that the interpreter makes of numbers.
    pub number_strings: Map<Value, Seq<u8>>,
    /// The decimal texts of integers that are read as floating point numbers.
    pub widened: Map<i64, Seq<char>>,
    /// The addresses of values that do not live in the heap.
    pub addresses: Map<Value, u64>,
}

impl Env {
    pub open spec fn address(self, v: Value) -> u64 {
        match v {
            Value::Table(a) => a,
            Value::Closure(a) => a,
            Value::Userdata(a) => a,
            Value::Thread(a) => a,
            Value::LightUserdata(Pointer::Host(a)) => a,
            _ => if self.addresses.contains_key(v) {
                self.addresses[v]
            } else {
                0
            },
        }
    }

    /// What `lua_tointegerx` reads in `v`.
    pub open spec fn integer(self, v: Value) -> Option<i64> {
        match v {
            Value::Integer(i) => Some(i),
            Value::Number { text: _, whole } => whole,
            Value::Str(s) => if self.numerals.contains_key(s) {
                Some(self.numerals[s])
            } else {
                None
            },
            _ => None,
        }
    }

    /// What `lua_tostring` reads in `v`.
    pub open spec fn string(self, v: Value) -> Option<Seq<u8>> {
        match v {
            Value::Str(s) => Some(s),
            Value::Integer(_) | Value::Number { .. } => if self.number_strings.contains_key(v) {
                Some(self.number_strings[v])
            } else {
                Some(Seq::empty())
            },
            _ => None,
        }
    }

    /// The decimal text of the number `v`, read as a floating point number.
    pub open spec fn number_text(self, v: Value) -> Seq<char> {
        match v {
            Value::Number { text, whole: _ } => text,
            Value::Integer(i) => if self.widened.contains_key(i) {
                self.widened[i]
            } else {
                Seq::empty()
            },
            _ => Seq::empty(),
        }
    }

    /// The block address that `lua_touserdata` reads in `v`.
    pub open spec fn userdata(self, v: Value) -> Option<u64> {
        match v {
            Value::Userdata(a) => Some(a),
            Value::LightUserdata(_) => if self.address(v) == 0 {
                None
            } else {
                Some(self.address(v))
            },
            _ => None,
        }
    }
}

/// The error object of a failed allocation.
pub open spec fn memory_message() -> Value {
    name("not enough memory")
}

/// The first `n` requests for memory are granted.
pub open spec fn grants(memory: Seq<Option<u64>>, n: nat) -> bool {
    &&& memory.len() >= n
    &&& forall|i: int| 0 <= i < n ==> #[trigger] memory[i] is Some
}

/// How many requests for memory are granted before the first refusal.
pub open spec fn granted(memory: Seq<Option<u64>>) -> nat
    decreases memory.len(),
{
    if memory.len() == 0 || memory[0] is None {
        0
    } else {
        1 + granted(memory.drop_first())
    }
}

/// The answers that are left when requests for memory were made up to the first refusal.
pub open spec fn starved(memory: Seq<Option<u64>>) -> Seq<Option<u64>>
    decreases memory.len(),
{
    if memory.len() == 0 {
        memory
    } else if memory[0] is None {
        memory.drop_first()
    } else {
        starved(memory.drop_first())
    }
}

/// `s` as C reads it: up to its first zero byte.
pub open spec fn c_string(s: Seq<u8>) -> Seq<u8>
    decreases s.len(),
{
    if s.len() == 0 || s[0] == 0 {
        Seq::empty()
    } else {
        seq![s[0]] + c_string(s.drop_first())
    }
}

/// `vs` cut or filled up with nil to `n` values, or whole.
pub open spec fn adjust(vs: Seq<Value>, n: int) -> Seq<Value> {
    if n == MULTRET {
        vs
    } else {
        Seq::new(n as nat, |i: int| if i < vs.len() { vs[i] } else { Value::Nil })
    }
}

/// `s` with its part from `p` on rotated by `n` positions towards the end.
pub open spec fn rotated(s: Seq<Value>, p: int, n: int) -> Seq<Value> {
    let m = if n >= 0 { s.len() - n } else { p - n };
    s.take(p) + s.skip(m) + s.subrange(p, m)
}

/// What a running C function sees of the interpreter.
#[verifier::ext_equal]
#[verifier::reject_recursive_types(O)]
pub ghost struct State<O> {
    /// The frame of the function, its arguments first.
    pub stack: Seq<Value>,
    /// How many slots the frame may fill.
    pub room: nat,
    /// The values bound to the function.
    pub upvalues: Seq<Value>,
    pub heap: Heap<O>,
    /// The error object in flight.
    pub error: Value,
    /// The answers to requests for memory: an address, or a refusal. When they run out, every
    /// request is refused.
    pub memory: Seq<Option<u64>>,
    /// The answers of called functions.
    pub replies: Seq<Reply<O>>,
    /// The texts that the interpreter writes: tracebacks, positions and messages.
    pub texts: Seq<Seq<u8>>,
    /// What the interpreter was asked for so far.
    pub calls: Seq<Call>,
    pub env: Env,
}

impl<O> State<O> {
    /// The position in the frame that the index `idx` names.
    pub open spec fn pos(self, idx: int) -> int {
        if idx > 0 {
            idx - 1
        } else {
            self.stack.len() + idx
        }
    }

    pub open spec fn on_stack(self, idx: int) -> bool {
        0 < idx <= self.stack.len() || -self.stack.len() <= idx < 0
    }

    /// `idx` names a slot of the frame, the registry or a bound value.
    pub open spec fn valid(self, idx: int) -> bool {
        ||| self.on_stack(idx)
        ||| idx == REGISTRY_INDEX
        ||| REGISTRY_INDEX - self.upvalues.len() <= idx < REGISTRY_INDEX
    }

    pub open spec fn at(self, idx: int) -> Value {
        if idx == REGISTRY_INDEX {
            Value::Table(self.heap.registry)
        } else if idx < REGISTRY_INDEX {
            self.upvalues[REGISTRY_INDEX - idx - 1]
        } else {
            self.stack[self.pos(idx)]
        }
    }

    /// The type tag of what `idx` names, if anything.
    pub open spec fn tag(self, idx: int) -> LuaType {
        if self.valid(idx) {
            self.at(idx).tag()
        } else {
            LuaType::Absent
        }
    }

    /// The slots that are free.
    pub open spec fn spare(self) -> int {
        self.room - self.stack.len()
    }

    pub open spec fn with_stack(self, stack: Seq<Value>) -> State<O> {
        State { stack, ..self }
    }

    pub open spec fn with_heap(self, heap: Heap<O>) -> State<O> {
        State { heap, ..self }
    }

    pub open spec fn push(self, v: Value) -> State<O> {
        State { stack: self.stack.push(v), ..self }
    }

    pub open spec fn pop(self, n: int) -> State<O> {
        State { stack: self.stack.take(self.stack.len() - n), ..self }
    }

    /// The state after the interpreter was asked for memory.
    pub open spec fn spent(self) -> State<O> {
        State {
            memory: if self.memory.len() > 0 {
                self.memory.drop_first()
            } else {
                self.memory
            },
            ..self
        }
    }

    /// The state after `n` requests for memory.
    pub open spec fn after(self, n: nat) -> State<O> {
        State { memory: self.memory.skip(n as int), ..self }
    }

    /// The state after requests for memory up to the first refusal.
    pub open spec fn starved(self) -> State<O> {
        State { memory: starved(self.memory), ..self }
    }

    pub open spec fn grant(self) -> bool {
        self.memory.len() > 0 && self.memory[0] is Some
    }

    pub open spec fn out_of_memory(self) -> State<O> {
        State { error: memory_message(), ..self.spent() }
    }

    /// The frame can be given `n` free slots.
    pub open spec fn grows(self, n: int) -> bool {
        ||| self.stack.len() + n <= self.room
        ||| self.stack.len() + n <= MAX_STACK && self.grant()
    }

    /// The state after `n` free slots were asked for.
    pub open spec fn grown(self, n: int) -> State<O> {
        if self.stack.len() + n <= self.room || self.stack.len() + n > MAX_STACK {
            self
        } else if self.grant() {
            State { room: (self.stack.len() + n) as nat, ..self.spent() }
        } else {
            self.spent()
        }
    }

    pub open spec fn reply(self) -> Reply<O> {
        if self.replies.len() > 0 {
            self.replies[0]
        } else {
            Reply { heap: None, outcome: Outcome::Returns(Seq::empty()) }
        }
    }

    /// The state after a function that is not this library's has run.
    pub open spec fn replied(self) -> State<O> {
        State {
            heap: match self.reply().heap {
                Some(h) => h,
                None => self.heap,
            },
            replies: if self.replies.len() > 0 {
                self.replies.drop_first()
            } else {
                self.replies
            },
            ..self
        }
    }

    /// The state after the interpreter was asked for `c` and gave its reply.
    pub open spec fn asked(self, c: Call) -> State<O> {
        State { calls: self.calls.push(c), ..self.replied() }
    }

    /// The call of the function below `nargs` arguments.
    pub open spec fn requested(self, nargs: int) -> Call {
        Call::Function(self.callee(nargs), self.args(nargs))
    }

    pub open spec fn text(self) -> Seq<u8> {
        if self.texts.len() > 0 {
            self.texts[0]
        } else {
            Seq::empty()
        }
    }

    pub open spec fn texted(self) -> State<O> {
        State {
            texts: if self.texts.len() > 0 {
                self.texts.drop_first()
            } else {
                self.texts
            },
            ..self
        }
    }

    /// The error `v` goes in flight.
    pub open spec fn throw(self, v: Value) -> State<O> {
        State { error: v, ..self }
    }

    /// A C function can be entered with `n` arguments.
    pub open spec fn can_enter(self, n: int) -> bool {
        self.grant() && n + MIN_STACK <= MAX_STACK
    }

    /// What a C function with the bound values `upvalues` sees when it is entered with `args`.
    pub open spec fn enter(self, upvalues: Seq<Value>, args: Seq<Value>) -> State<O> {
        State { stack: args, room: args.len() + MIN_STACK as nat, upvalues, ..self.spent() }
    }

    /// Back in this frame, now with `stack`, after a callee left the interpreter in `inner`.
    pub open spec fn back(self, inner: State<O>, stack: Seq<Value>) -> State<O> {
        State {
            stack,
            room: if stack.len() > self.room {
                stack.len()
            } else {
                self.room
            },
            upvalues: self.upvalues,
            error: self.error,
            ..inner
        }
    }

    /// The frame below a function and its `nargs` arguments.
    pub open spec fn below(self, nargs: int) -> Seq<Value> {
        self.stack.take(self.stack.len() - nargs - 1)
    }

    pub open spec fn callee(self, nargs: int) -> Value {
        self.stack[self.stack.len() - nargs - 1]
    }

    pub open spec fn args(self, nargs: int) -> Seq<Value> {
        self.stack.skip(self.stack.len() - nargs)
    }

    /// A call, outside any protection, of a function that is not this library's.
    pub open spec fn call(self, nargs: int, nresults: int) -> (State<O>, Result<(), Raised>) {
        let below = self.below(nargs);
        let s = self.asked(self.requested(nargs));
        match self.reply().outcome {
            Outcome::Returns(vs) => {
                let stack = below + adjust(vs, nresults);
                if stack.len() <= MAX_STACK {
                    (self.back(s, stack), Ok(()))
                } else {
                    (s.throw(memory_message()), Err(Raised { status: Status::ErrMem }))
                }
            },
            Outcome::Raises(status, v) => (s.throw(v), Err(Raised { status })),
        }
    }

    /// The answers to come can all be given: addresses are fresh and heaps are well formed.
    pub open spec fn sound(self) -> bool {
        &&& forall|i: int, j: int|
            0 <= i < j < self.memory.len() && (#[trigger] self.memory[i]) is Some && (
            #[trigger] self.memory[j]) is Some ==> self.memory[i]->0 != self.memory[j]->0
        &&& forall|i: int|
            0 <= i < self.memory.len() && (#[trigger] self.memory[i]) is Some ==> self.heap.free(
                self.memory[i]->0,
            )
        &&& forall|k: int|
            0 <= k < self.replies.len() ==> self.sound_reply(#[trigger] self.replies[k])
    }

    pub open spec fn sound_reply(self, r: Reply<O>) -> bool {
        &&& r.heap matches Some(h) ==> {
            &&& h.wf()
            &&& h.cached.contains(FAILURE_KEY)
            &&& forall|i: int|
                0 <= i < self.memory.len() && (#[trigger] self.memory[i]) is Some ==> h.free(
                    self.memory[i]->0,
                )
        }
        &&& r.outcome matches Outcome::Raises(status, _) ==> known(status, self.env.version)
    }

    /// It can be told whether `v` is a userdata of the type `key`: where there is a metatable to
    /// compare with, one has been registered for that type.
    pub open spec fn tells(self, v: Value, key: TypeKey) -> bool {
        self.env.userdata(v) is Some && self.heap.metatable(v) is Some
            ==> self.heap.cached.contains(key)
    }

    pub open spec fn wf(self) -> bool {
        &&& self.stack.len() <= self.room <= MAX_STACK
        &&& self.heap.wf()
        &&& self.sound()
    }

    /// Well formed, with the failure metatable registered in the cache.
    pub open spec fn ready(self) -> bool {
        self.wf() && self.heap.cached.contains(FAILURE_KEY)
    }
}

/// The statuses with which calls fail under `version`.
pub open spec fn known(status: Status, version: LuaVersion) -> bool {
    match status {
        Status::Success | Status::Yield => false,
        Status::ErrGcmm => version == LuaVersion::Lua53 || version == LuaVersion::Lua52,
        _ => true,
    }
}

} // verus!

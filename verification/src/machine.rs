//! An interpreter in memory. It runs the library's own functions; what any other function does
//! is told to it beforehand.

use std::collections::VecDeque;

use vstd::prelude::*;
use vstd::pervasive::VecAdditionalExecFns;

use crate::api::complaint;
use crate::api::gettable;
use crate::api::handled;
use crate::api::handler_accepts;
use crate::api::pcall;
use crate::api::pcall_run;
use crate::api::rawset;
use crate::api::settable;
use crate::api::tolstring;
use crate::api::tostring;
use crate::api::traceback;
use crate::api::xpcall;
use crate::api::CFn;
use crate::api::Interp;
use crate::api::Lua;
use crate::cache::MetatableCache;
use crate::cache::CACHE_CAPACITY;
use crate::slot::copy_bytes;
use crate::slot::copy_c_string;
use crate::slot::join_bytes;
use crate::slot::values;
use crate::slot::Assoc;
use crate::slot::Slot;
use crate::state::adjust;
use crate::state::known;
use crate::state::memory_message;
use crate::state::own;
use crate::state::rotated;
use crate::state::Call;
use crate::state::ClosureModel;
use crate::state::Env;
use crate::state::Heap;
use crate::state::Outcome;
use crate::state::Reply;
use crate::state::State;
use crate::state::TableModel;
use crate::state::UserdataModel;
use crate::value::CFunction;
use crate::value::LuaType;
use crate::value::LuaVersion;
use crate::value::Payload;
use crate::value::PayloadModel;
use crate::value::Pointer;
use crate::value::Raised;
use crate::value::Status;
use crate::value::TypeKey;
use crate::value::Value;
use crate::value::MAX_STACK;
use crate::value::MIN_STACK;
use crate::value::MULTRET;
use crate::value::REGISTRY_INDEX;
use crate::value::RIDX_MAINTHREAD;

verus! {

/// What a function that is not the library's is to answer.
#[derive(Debug)]
pub enum Answer {
    Returns(Vec<Slot>),
    Raises(Status, Slot),
}

impl Answer {
    pub open spec fn view(&self) -> Outcome {
        match *self {
            Answer::Returns(vs) => Outcome::Returns(values(vs@)),
            Answer::Raises(status, v) => Outcome::Raises(status, v@),
        }
    }
}

/// What the machine was asked for, when the answer was its own to give.
#[derive(Debug)]
pub enum Asked {
    Function(Slot, Vec<Slot>),
    Index(Slot, Slot),
    Newindex(Slot, Slot, Slot),
    Text(Slot),
    Traceback(i32),
}

impl Asked {
    pub open spec fn view(&self) -> Call {
        match *self {
            Asked::Function(f, args) => Call::Function(f@, values(args@)),
            Asked::Index(o, k) => Call::Index(o@, k@),
            Asked::Newindex(o, k, v) => Call::Newindex(o@, k@, v@),
            Asked::Text(v) => Call::Text(v@),
            Asked::Traceback(level) => Call::Traceback(level as int),
        }
    }
}

/// An object of the heap.
#[verifier::reject_recursive_types(O)]
enum Object<O> {
    /// An address that was handed out for something that is not an object.
    Blank,
    Table { entries: Assoc<Slot>, metatable: Option<u64> },
    Userdata { payload: Payload<O>, metatable: Option<u64> },
    Closure { function: CFunction, upvalues: Vec<Slot> },
}

/// The entries of a table: those filed last, without nil.
spec fn table_entries(m: Map<Value, Slot>) -> Map<Value, Value> {
    Map::new(|k: Value| m.contains_key(k) && !(m[k]@ is Nil), |k: Value| m[k]@)
}

spec fn table_model<O>(o: Object<O>) -> TableModel {
    match o {
        Object::Table { entries, metatable } => TableModel {
            entries: table_entries(entries@),
            metatable,
        },
        _ => TableModel::empty(),
    }
}

spec fn userdata_model<O>(o: Object<O>) -> UserdataModel<O> {
    match o {
        Object::Userdata { payload, metatable } => UserdataModel { payload: payload@, metatable },
        _ => UserdataModel { payload: PayloadModel::Vacant, metatable: None },
    }
}

spec fn closure_model<O>(o: Object<O>) -> ClosureModel {
    match o {
        Object::Closure { function, upvalues } => ClosureModel {
            function,
            upvalues: values(upvalues@),
        },
        _ => ClosureModel { function: CFunction::DoCall, upvalues: Seq::empty() },
    }
}

/// The address `a` has been handed out.
spec fn used<O>(objects: Seq<Object<O>>, a: u64) -> bool {
    1 <= a <= objects.len()
}

spec fn object<O>(objects: Seq<Object<O>>, a: u64) -> Object<O> {
    objects[a - 1]
}

/// The heap with the registry at the first address, where strings share the metatable `strings`.
spec fn heap_of<O>(objects: Seq<Object<O>>, strings: Option<u64>, cached: Set<TypeKey>) -> Heap<
    O,
> {
    Heap {
        tables: Map::new(
            |a: u64| used(objects, a) && object(objects, a) is Table,
            |a: u64| table_model(object(objects, a)),
        ),
        userdata: Map::new(
            |a: u64| used(objects, a) && object(objects, a) is Userdata,
            |a: u64| userdata_model(object(objects, a)),
        ),
        closures: Map::new(
            |a: u64| used(objects, a) && object(objects, a) is Closure,
            |a: u64| closure_model(object(objects, a)),
        ),
        basic: match strings {
            Some(t) => map![LuaType::Str => t],
            None => Map::empty(),
        },
        registry: 1,
        cached,
    }
}

/// Addresses are handed out one after the other, up to `limit`.
spec fn addresses_left(used: int, limit: u32) -> Seq<Option<u64>> {
    Seq::new(
        if used < limit {
            (limit - used) as nat
        } else {
            0
        },
        |i: int| Some((used + 1 + i) as u64),
    )
}

spec fn replies_of<O>(answers: Seq<Answer>) -> Seq<Reply<O>> {
    Seq::new(answers.len(), |i: int| Reply { heap: None, outcome: answers[i]@ })
}

spec fn calls_of(calls: Seq<Asked>) -> Seq<Call> {
    Seq::new(calls.len(), |i: int| calls[i]@)
}

spec fn texts_left(texts: Seq<Vec<u8>>) -> Seq<Seq<u8>> {
    Seq::new(texts.len(), |i: int| texts[i]@)
}

/// What stays the same for as long as a machine runs.
struct Facts {
    version: LuaVersion,
    thread: u64,
    main_thread: bool,
    numerals: Assoc<i64>,
    number_strings: Assoc<Vec<u8>>,
    widened: Assoc<String>,
    addresses: Assoc<u64>,
}

spec fn env_of(f: Facts) -> Env {
    Env {
        version: f.version,
        thread: f.thread,
        main_thread: f.main_thread,
        cache_capacity: CACHE_CAPACITY as nat,
        numerals: Map::new(
            |s: Seq<u8>| f.numerals@.contains_key(Value::Str(s)),
            |s: Seq<u8>| f.numerals@[Value::Str(s)],
        ),
        number_strings: Map::new(
            |v: Value| f.number_strings@.contains_key(v),
            |v: Value| f.number_strings@[v]@,
        ),
        widened: Map::new(
            |i: i64| f.widened@.contains_key(Value::Integer(i)),
            |i: i64| f.widened@[Value::Integer(i)]@,
        ),
        addresses: f.addresses@,
    }
}

/// An interpreter in memory, whose userdata hold host values of the type `O`.
#[verifier::reject_recursive_types(O)]
pub struct Machine<O> {
    stack: Vec<Slot>,
    room: u32,
    upvalues: Vec<Slot>,
    /// The object at the address `a` stands at `a - 1`.
    objects: Vec<Object<O>>,
    /// The metatable of strings.
    strings: Option<u64>,
    cached: MetatableCache,
    error: Slot,
    /// The last address that can be handed out.
    limit: u32,
    answers: VecDeque<Answer>,
    texts: VecDeque<Vec<u8>>,
    calls: Vec<Asked>,
    facts: Facts,
}

impl<O> Interp for Machine<O> {
    type Object = O;

    closed spec fn view(&self) -> State<O> {
        State {
            stack: values(self.stack@),
            room: self.room as nat,
            upvalues: values(self.upvalues@),
            heap: heap_of(self.objects@, self.strings, self.cached@),
            error: self.error@,
            memory: addresses_left(self.objects@.len() as int, self.limit),
            replies: replies_of(self.answers@),
            texts: texts_left(self.texts@),
            calls: calls_of(self.calls@),
            env: env_of(self.facts),
        }
    }
}

/// The state of a new machine.
pub open spec fn fresh<O>(version: LuaVersion, budget: u32) -> State<O> {
    State {
        stack: Seq::empty(),
        room: MIN_STACK as nat,
        upvalues: Seq::empty(),
        heap: Heap {
            tables: map![
                1u64 => TableModel {
                    entries: map![Value::Integer(RIDX_MAINTHREAD) => Value::Thread(1)],
                    metatable: None,
                }
            ],
            userdata: Map::empty(),
            closures: Map::empty(),
            basic: Map::empty(),
            registry: 1,
            cached: Set::empty(),
        },
        error: Value::Nil,
        memory: Seq::new(budget as nat, |i: int| Some((2 + i) as u64)),
        replies: Seq::empty(),
        texts: Seq::empty(),
        calls: Seq::empty(),
        env: Env {
            version,
            thread: 1,
            main_thread: true,
            cache_capacity: CACHE_CAPACITY as nat,
            numerals: Map::empty(),
            number_strings: Map::empty(),
            widened: Map::empty(),
            addresses: Map::empty(),
        },
    }
}

/// The heap with the object `o` at `a`.
spec fn placed<O>(h: Heap<O>, a: u64, o: Object<O>) -> Heap<O> {
    match o {
        Object::Blank => h,
        Object::Table { .. } => Heap { tables: h.tables.insert(a, table_model(o)), ..h },
        Object::Userdata { .. } => Heap { userdata: h.userdata.insert(a, userdata_model(o)), ..h },
        Object::Closure { .. } => Heap { closures: h.closures.insert(a, closure_model(o)), ..h },
    }
}

/// `vs` cut or filled up with nil to `n` values, or whole.
fn fit(vs: Vec<Slot>, n: i32) -> (r: Vec<Slot>)
    requires
        n >= MULTRET,
    ensures
        values(r@) == adjust(values(vs@), n as int),
{
    let mut r = vs;
    if n == MULTRET {
        return r;
    }
    resize(&mut r, n as usize);
    r
}

/// Cuts `vs` or fills it up with nil to `n` values.
fn resize(vs: &mut Vec<Slot>, n: usize)
    requires
        n <= i32::MAX,
    ensures
        values(final(vs)@) == adjust(values(old(vs)@), n as int),
{
    vs.truncate(n);
    while vs.len() < n
        invariant
            n <= i32::MAX,
            vs.len() <= n,
            vs.len() == n || vs.len() >= old(vs).len(),
            forall|i: int| #![auto]
                0 <= i < vs.len() ==> vs@[i]@ == if i < old(vs).len() {
                    old(vs)@[i]@
                } else {
                    Value::Nil
                },
        decreases n - vs.len(),
    {
        vs.push(Slot::Nil);
    }
    assert(values(vs@) =~= adjust(values(old(vs)@), n as int));
}

/// The first `n` of `vs`.
fn copy_slots(vs: &Vec<Slot>, n: usize) -> (r: Vec<Slot>)
    requires
        n <= vs@.len(),
    ensures
        values(r@) == values(vs@).take(n as int),
{
    let mut r: Vec<Slot> = Vec::new();
    let mut i: usize = 0;
    while i < n
        invariant
            i <= n <= vs.len(),
            r.len() == i,
            forall|j: int| #![auto] 0 <= j < i ==> r@[j]@ == vs@[j]@,
        decreases n - i,
    {
        r.push(vs[i].clone());
        i = i + 1;
    }
    assert(values(r@) =~= values(vs@).take(n as int));
    r
}

impl<O> Machine<O> {
    /// A machine with an empty frame that has memory for `budget` requests. Its registry, at the
    /// address 1, holds the main thread, which is the running one.
    pub fn new(version: LuaVersion, budget: u32) -> (m: Machine<O>)
        requires
            budget < u32::MAX,
        ensures
            m@ == fresh::<O>(version, budget),
            m@.wf(),
    {
        let mut entries: Assoc<Slot> = Assoc::new();
        entries.put(Slot::Integer(RIDX_MAINTHREAD), Slot::Thread(1));
        let mut objects: Vec<Object<O>> = Vec::new();
        objects.push(Object::Table { entries, metatable: None });
        let m = Machine {
            stack: Vec::new(),
            room: MIN_STACK as u32,
            upvalues: Vec::new(),
            objects,
            strings: None,
            cached: MetatableCache::new(),
            error: Slot::Nil,
            limit: budget + 1,
            answers: VecDeque::new(),
            texts: VecDeque::new(),
            calls: Vec::new(),
            facts: Facts {
                version,
                thread: 1,
                main_thread: true,
                numerals: Assoc::new(),
                number_strings: Assoc::new(),
                widened: Assoc::new(),
                addresses: Assoc::new(),
            },
        };
        proof {
            let f = fresh::<O>(version, budget);
            assert(table_entries(entries@) =~= f.heap.tables[1].entries);
            assert(forall|a: u64| used(m.objects@, a) <==> a == 1);
            assert(m@.heap.tables =~= f.heap.tables);
            assert(m@.heap.userdata =~= f.heap.userdata);
            assert(m@.heap.closures =~= f.heap.closures);
            assert(m@.env.numerals =~= f.env.numerals);
            assert(m@.env.number_strings =~= f.env.number_strings);
            assert(m@.env.widened =~= f.env.widened);
            assert(m@ =~= f);
            assert(forall|p: Pointer| #[trigger] f.heap.registered(p) is Nil);
            assert(forall|a: u64| !(#[trigger] f.heap.userdata.contains_key(a)));
        }
        m
    }

    /// Keeps memory for `n` more requests.
    pub fn limit_memory(&mut self, n: u32)
        requires
            n <= old(self)@.memory.len(),
        ensures
            final(self)@ == (State {
                memory: old(self)@.memory.take(n as int),
                ..old(self)@
            }),
    {
        let ghost s = self@;
        let used = self.objects.len();
        if used < self.limit as usize {
            self.limit = used as u32 + n;
        }
        assert(self@.memory =~= s.memory.take(n as int));
        assert(self@ =~= (State { memory: self@.memory, ..s }));
    }

    /// The next function that is not the library's answers `a`, after those told before.
    pub fn expect(&mut self, a: Answer)
        ensures
            final(self)@ == (State {
                replies: old(self)@.replies.push(Reply { heap: None, outcome: a@ }),
                ..old(self)@
            }),
    {
        let ghost s = self@;
        self.answers.push_back(a);
        assert(self@.replies =~= s.replies.push(Reply { heap: None, outcome: a@ }));
        assert(self@ =~= (State { replies: self@.replies, ..s }));
    }

    /// The next text that the interpreter writes is `t`, after those told before.
    pub fn expect_text(&mut self, t: Vec<u8>)
        ensures
            final(self)@ == (State { texts: old(self)@.texts.push(t@), ..old(self)@ }),
    {
        let ghost s = self@;
        self.texts.push_back(t);
        assert(self@.texts =~= s.texts.push(t@));
        assert(self@ =~= (State { texts: self@.texts, ..s }));
    }

    /// Makes the table `t` the metatable of strings.
    pub fn set_string_metatable(&mut self, t: u64)
        requires
            old(self)@.wf(),
            old(self)@.heap.tables.contains_key(t),
            forall|p: Pointer|
                own(p) ==> #[trigger] old(self)@.heap.registered(p) != Value::Table(t),
        ensures
            final(self)@ == old(self)@.with_heap(
                Heap { basic: map![LuaType::Str => t], ..old(self)@.heap },
            ),
            final(self)@.wf(),
    {
        let ghost s = self@;
        self.strings = Some(t);
        proof {
            let h = Heap { basic: map![LuaType::Str => t], ..s.heap };
            assert(self@ =~= s.with_heap(h));
            assert(forall|p: Pointer| #[trigger] h.registered(p) == s.heap.registered(p));
            assert forall|a: u64| #[trigger] h.userdata.contains_key(a) implies
                s.heap.userdata.contains_key(a) by {}
        }
    }

    /// How often the machine was asked for something that is its own to answer.
    pub fn asked(&self) -> (n: usize)
        ensures
            n == self@.calls.len(),
    {
        self.calls.len()
    }

    /// What the machine was asked for, the time `i`.
    pub fn asked_for(&self, i: usize) -> (c: &Asked)
        requires
            i < self@.calls.len(),
        ensures
            c@ == self@.calls[i as int],
    {
        &self.calls[i]
    }

    /// Binds `upvalues` to the running function.
    pub fn bind(&mut self, upvalues: Vec<Slot>)
        ensures
            final(self)@ == (State { upvalues: values(upvalues@), ..old(self)@ }),
    {
        let ghost s = self@;
        self.upvalues = upvalues;
        assert(self@ =~= (State { upvalues: values(upvalues@), ..s }));
    }

    /// The error object in flight.
    pub fn in_flight(&self) -> (v: Slot)
        ensures
            v@ == self@.error,
    {
        self.error.clone()
    }

    /// The thread `t` runs, which is the main one or not.
    pub fn run_thread(&mut self, t: u64, main: bool)
        ensures
            final(self)@ == (State {
                env: Env { thread: t, main_thread: main, ..old(self)@.env },
                ..old(self)@
            }),
    {
        let ghost s = self@;
        self.facts.thread = t;
        self.facts.main_thread = main;
        assert(self@ =~= (State { env: Env { thread: t, main_thread: main, ..s.env }, ..s }));
    }

    /// The string `text` reads as the integer `i`.
    pub fn set_numeral(&mut self, text: Vec<u8>, i: i64)
        ensures
            final(self)@ == (State {
                env: Env {
                    numerals: old(self)@.env.numerals.insert(text@, i),
                    ..old(self)@.env
                },
                ..old(self)@
            }),
    {
        let ghost s = self@;
        self.facts.numerals.put(Slot::Str(text), i);
        assert(self@.env.numerals =~= s.env.numerals.insert(text@, i));
        assert(self@ =~= (State { env: Env { numerals: self@.env.numerals, ..s.env }, ..s }));
    }

    /// The string of the number `v` is `text`.
    pub fn set_number_string(&mut self, v: Slot, text: Vec<u8>)
        ensures
            final(self)@ == (State {
                env: Env {
                    number_strings: old(self)@.env.number_strings.insert(v@, text@),
                    ..old(self)@.env
                },
                ..old(self)@
            }),
    {
        let ghost s = self@;
        self.facts.number_strings.put(v, text);
        assert(self@.env.number_strings =~= s.env.number_strings.insert(v@, text@));
        assert(self@ =~= (State {
            env: Env { number_strings: self@.env.number_strings, ..s.env },
            ..s
        }));
    }

    /// The decimal text of the integer `i`, read as a floating point number, is `text`.
    pub fn set_widened(&mut self, i: i64, text: String)
        ensures
            final(self)@ == (State {
                env: Env {
                    widened: old(self)@.env.widened.insert(i, text@),
                    ..old(self)@.env
                },
                ..old(self)@
            }),
    {
        let ghost s = self@;
        self.facts.widened.put(Slot::Integer(i), text);
        assert(self@.env.widened =~= s.env.widened.insert(i, text@));
        assert(self@ =~= (State { env: Env { widened: self@.env.widened, ..s.env }, ..s }));
    }

    /// The address of `v`, which does not live in the heap, is `a`.
    pub fn set_address(&mut self, v: Slot, a: u64)
        ensures
            final(self)@ == (State {
                env: Env {
                    addresses: old(self)@.env.addresses.insert(v@, a),
                    ..old(self)@.env
                },
                ..old(self)@
            }),
    {
        let ghost s = self@;
        self.facts.addresses.put(v, a);
        assert(self@ =~= (State {
            env: Env { addresses: s.env.addresses.insert(v@, a), ..s.env },
            ..s
        }));
    }

    /// Where in the frame the index `idx` points.
    fn position(&self, idx: i32) -> (p: usize)
        requires
            self@.wf(),
            self@.on_stack(idx as int),
        ensures
            p == self@.pos(idx as int),
            p < self.stack@.len(),
    {
        if idx > 0 {
            (idx - 1) as usize
        } else {
            (self.stack.len() as i32 + idx) as usize
        }
    }

    fn is_on_stack(&self, idx: i32) -> (b: bool)
        requires
            self@.wf(),
        ensures
            b == self@.on_stack(idx as int),
    {
        let n = self.stack.len() as i32;
        0 < idx && idx <= n || -n <= idx && idx < 0
    }

    fn is_valid(&self, idx: i32) -> (b: bool)
        requires
            self@.wf(),
        ensures
            b == self@.valid(idx as int),
    {
        idx == REGISTRY_INDEX || self.is_on_stack(idx) || idx < REGISTRY_INDEX && (REGISTRY_INDEX
            - idx) as usize <= self.upvalues.len()
    }

    /// The value that `idx` names.
    pub fn value(&self, idx: i32) -> (v: Slot)
        requires
            self@.wf(),
            self@.valid(idx as int),
        ensures
            v@ == self@.at(idx as int),
    {
        if idx == REGISTRY_INDEX {
            Slot::Table(1)
        } else if idx < REGISTRY_INDEX {
            self.upvalues[(REGISTRY_INDEX - idx - 1) as usize].clone()
        } else {
            self.stack[self.position(idx)].clone()
        }
    }

    /// The address of the table at `idx`.
    fn table(&self, idx: i32) -> (t: u64)
        requires
            self@.wf(),
            self@.valid(idx as int),
            self@.at(idx as int) is Table,
        ensures
            t == self@.at(idx as int)->Table_0,
    {
        match self.value(idx) {
            Slot::Table(t) => t,
            _ => 0,
        }
    }

    /// Pushes `v`.
    pub fn push(&mut self, v: Slot)
        requires
            old(self)@.spare() >= 1,
        ensures
            final(self)@ == old(self)@.push(v@),
    {
        self.stack.push(v);
        assert(self@ =~= old(self)@.push(v@));
    }

    /// Asks for the memory of `o`.
    fn allocate(&mut self, o: Object<O>) -> (r: Option<u64>)
        ensures
            match r {
                Some(a) => {
                    &&& old(self)@.grant()
                    &&& a == old(self)@.memory[0]->0
                    &&& final(self)@ == old(self)@.spent().with_heap(
                        placed(old(self)@.heap, a, o),
                    )
                },
                None => !old(self)@.grant() && final(self)@ == old(self)@.spent(),
            },
    {
        let n = self.objects.len();
        if n >= self.limit as usize {
            assert(self@.memory.len() == 0);
            return None;
        }
        let a = n as u64 + 1;
        let ghost s = self@;
        let ghost objects = self.objects@;
        self.objects.push(o);
        proof {
            assert(s.memory.len() > 0);
            assert(self@.memory =~= s.spent().memory);
            assert(forall|b: u64| #[trigger]
                used(objects, b) ==> object(self.objects@, b) == object(objects, b));
            assert(self@.heap =~= placed(s.heap, a, o));
            assert(self@ =~= s.spent().with_heap(placed(s.heap, a, o)));
        }
        Some(a)
    }

    /// A request for memory is refused.
    fn starve(&mut self) -> (e: Raised)
        ensures
            e == (Raised { status: Status::ErrMem }),
            final(self)@ == old(self)@.throw(memory_message()),
    {
        self.error = Slot::Str(copy_bytes("not enough memory".as_bytes()));
        assert(self@ =~= old(self)@.throw(memory_message()));
        Raised { status: Status::ErrMem }
    }

    /// The entry of the table `t` under `k`.
    pub fn entry(&self, t: u64, k: &Slot) -> (v: Slot)
        ensures
            v@ == self@.heap.get(t, k@),
    {
        if t >= 1 && t <= self.objects.len() as u64 {
            assert(used(self.objects@, t));
            match &self.objects[(t - 1) as usize] {
                Object::Table { entries, metatable: _ } => match entries.get(&k.key()) {
                    Some(v) => v.clone(),
                    None => Slot::Nil,
                },
                _ => Slot::Nil,
            }
        } else {
            Slot::Nil
        }
    }

    /// Puts `o` at the address `a`, and takes out what was there.
    fn exchange(&mut self, a: u64, o: Object<O>) -> (r: Object<O>)
        requires
            used(old(self).objects@, a),
        ensures
            r == object(old(self).objects@, a),
            *final(self) == (Machine { objects: final(self).objects, ..*old(self) }),
            final(self).objects@ == old(self).objects@.update(a - 1, o),
    {
        let mut o = o;
        self.objects.set_and_swap((a - 1) as usize, &mut o);
        o
    }

    /// Writes an entry of the table `t`.
    fn set_entry(&mut self, t: u64, k: &Slot, v: Slot)
        requires
            old(self)@.heap.tables.contains_key(t),
        ensures
            final(self)@ == old(self)@.with_heap(old(self)@.heap.set(t, k@, v@)),
    {
        let ghost s = self@;
        let ghost objects = self.objects@;
        let o = self.exchange(t, Object::Blank);
        match o {
            Object::Table { entries, metatable } => {
                let mut entries = entries;
                let ghost m = entries@;
                entries.put(k.key(), v);
                let _ = self.exchange(t, Object::Table { entries, metatable });
                proof {
                    assert(table_entries(entries@) =~= table_entries(m).remove(k@.key())
                        || !(v@ is Nil));
                    assert(table_entries(entries@) =~= table_entries(m).insert(k@.key(), v@)
                        || v@ is Nil);
                    let h = s.heap.set(t, k@, v@);
                    assert(forall|b: u64| #[trigger]
                        used(objects, b) && b != t ==> object(self.objects@, b) == object(
                            objects,
                            b,
                        ));
                    assert(object(self.objects@, t) == Object::<O>::Table { entries, metatable });
                    assert(self@.heap.tables =~= h.tables);
                    assert(self@.heap =~= h);
                    assert(self@ =~= s.with_heap(h));
                }
            },
            _ => {
                assert(false);
            },
        }
    }

    /// The metatable of `v`.
    fn metatable(&self, v: &Slot) -> (m: Option<u64>)
        ensures
            m == self@.heap.metatable(v@),
    {
        let a: u64 = match v {
            Slot::Table(a) => *a,
            Slot::Userdata(a) => *a,
            Slot::Str(_) => {
                return self.strings;
            },
            _ => {
                return None;
            },
        };
        if a >= 1 && a <= self.objects.len() as u64 {
            assert(used(self.objects@, a));
            match (v, &self.objects[(a - 1) as usize]) {
                (Slot::Table(_), Object::Table { entries: _, metatable }) => *metatable,
                (Slot::Userdata(_), Object::Userdata { payload: _, metatable }) => *metatable,
                _ => None,
            }
        } else {
            None
        }
    }

    /// What the metatable of `o` names `event`.
    fn metamethod(&self, o: &Slot, event: &str) -> (v: Slot)
        ensures
            v@ == self@.heap.metamethod(self@.heap.metatable(o@), event),
    {
        match self.metatable(o) {
            Some(m) => self.entry(m, &Slot::Str(copy_bytes(event.as_bytes()))),
            None => Slot::Nil,
        }
    }

    fn set_metatable(&mut self, v: &Slot, m: Option<u64>)
        requires
            match v@ {
                Value::Table(t) => old(self)@.heap.tables.contains_key(t),
                Value::Userdata(a) => old(self)@.heap.userdata.contains_key(a),
                _ => false,
            },
        ensures
            final(self)@ == old(self)@.with_heap(old(self)@.heap.with_metatable(v@, m)),
    {
        let ghost s = self@;
        let ghost objects = self.objects@;
        let a: u64 = match v {
            Slot::Table(a) => *a,
            Slot::Userdata(a) => *a,
            _ => 0,
        };
        let o = match self.exchange(a, Object::Blank) {
            Object::Table { entries, metatable: _ } => Object::Table { entries, metatable: m },
            Object::Userdata { payload, metatable: _ } => Object::Userdata {
                payload,
                metatable: m,
            },
            o => o,
        };
        let ghost g = o;
        let _ = self.exchange(a, o);
        proof {
            let h = s.heap.with_metatable(v@, m);
            assert(forall|b: u64| #[trigger]
                used(objects, b) && b != a ==> object(self.objects@, b) == object(objects, b));
            assert(object(self.objects@, a) == g);
            assert(self@.heap.tables =~= h.tables);
            assert(self@.heap.userdata =~= h.userdata);
            assert(self@.heap =~= h);
            assert(self@ =~= s.with_heap(h));
        }
    }

    /// Puts `p` into the userdata at `a`, and takes out what was there.
    fn swap_payload(&mut self, a: u64, p: Payload<O>) -> (r: Payload<O>)
        requires
            old(self)@.heap.userdata.contains_key(a),
        ensures
            r@ == old(self)@.heap.userdata[a].payload,
            final(self)@ == old(self)@.with_heap(old(self)@.heap.with_payload(a, p@)),
    {
        let ghost s = self@;
        let ghost objects = self.objects@;
        match self.exchange(a, Object::Blank) {
            Object::Userdata { payload, metatable } => {
                let ghost o = Object::Userdata { payload: p, metatable };
                let _ = self.exchange(a, Object::Userdata { payload: p, metatable });
                proof {
                    let h = s.heap.with_payload(a, p@);
                    assert(forall|b: u64| #[trigger]
                        used(objects, b) && b != a ==> object(self.objects@, b) == object(
                            objects,
                            b,
                        ));
                    assert(object(self.objects@, a) == o);
                    assert(self@.heap.userdata =~= h.userdata);
                    assert(self@.heap =~= h);
                    assert(self@ =~= s.with_heap(h));
                }
                payload
            },
            _ => {
                assert(false);
                Payload::Vacant
            },
        }
    }

    /// The values bound to the function `f`.
    fn bound(&self, f: &Slot) -> (r: Vec<Slot>)
        ensures
            values(r@) == self@.heap.upvalues(f@),
    {
        match f {
            Slot::Closure(a) => if *a >= 1 && *a <= self.objects.len() as u64 {
                assert(used(self.objects@, *a));
                match &self.objects[(*a - 1) as usize] {
                    Object::Closure { function: _, upvalues } => {
                        let r = copy_slots(upvalues, upvalues.len());
                        assert(values(r@) =~= values(upvalues@));
                        r
                    },
                    _ => none(),
                }
            } else {
                none()
            },
            _ => none(),
        }
    }

    /// The next answer.
    fn answered(&mut self) -> (r: Answer)
        ensures
            r@ == old(self)@.reply().outcome,
            final(self)@ == old(self)@.replied(),
    {
        let ghost s = self@;
        match self.answers.pop_front() {
            Some(r) => {
                assert(s.replies[0].outcome == r@);
                assert(self@.replies =~= s.replies.drop_first());
                assert(self@ =~= s.replied());
                r
            },
            None => {
                assert(self@ =~= s.replied());
                Answer::Returns(none())
            },
        }
    }

    /// Notes what the machine is asked for.
    fn note(&mut self, c: Asked)
        ensures
            final(self)@ == (State { calls: old(self)@.calls.push(c@), ..old(self)@ }),
    {
        let ghost s = self@;
        self.calls.push(c);
        assert(self@.calls =~= s.calls.push(c@));
        assert(self@ =~= (State { calls: s.calls.push(c@), ..s }));
    }

    /// The answer to `c`.
    fn answer(&mut self, c: Asked) -> (r: Answer)
        ensures
            r@ == old(self)@.reply().outcome,
            final(self)@ == old(self)@.asked(c@),
    {
        let ghost s = self@;
        self.note(c);
        let r = self.answered();
        assert(self@ =~= s.asked(c@));
        r
    }

    /// The answer of the function below `nargs` arguments.
    fn answer_call(&mut self, nargs: i32) -> (r: Answer)
        requires
            0 <= nargs < old(self)@.stack.len(),
        ensures
            r@ == old(self)@.reply().outcome,
            final(self)@ == old(self)@.asked(old(self)@.requested(nargs as int)),
    {
        let f = self.stack[self.stack.len() - nargs as usize - 1].clone();
        let args = self.results(nargs);
        self.answer(Asked::Function(f, args))
    }

    /// A text that the interpreter writes.
    fn written(&mut self) -> (r: Vec<u8>)
        ensures
            r@ == old(self)@.text(),
            final(self)@ == old(self)@.texted(),
    {
        let ghost s = self@;
        match self.texts.pop_front() {
            Some(r) => {
                assert(s.texts[0] == r@);
                assert(self@.texts =~= s.texts.drop_first());
                assert(self@ =~= s.texted());
                r
            },
            None => {
                assert(self@ =~= s.texted());
                Vec::new()
            },
        }
    }

    /// Puts a message in flight: `tail`, behind the next text.
    fn complain(&mut self, tail: &[u8]) -> (e: Raised)
        ensures
            (final(self)@, Err::<(), Raised>(e)) == complaint::<(), O>(
                old(self)@,
                old(self)@.text() + tail@,
            ),
    {
        match self.allocate(Object::Blank) {
            Some(_) => {
                let head = self.written();
                self.throw(Slot::Str(join_bytes(head.as_slice(), tail)));
                Raised { status: Status::ErrRun }
            },
            None => self.starve(),
        }
    }

    /// Puts the next text in flight.
    fn complain_plainly(&mut self) -> (e: Raised)
        ensures
            (final(self)@, Err::<(), Raised>(e)) == complaint::<(), O>(
                old(self)@,
                old(self)@.text(),
            ),
    {
        let tail: Vec<u8> = Vec::new();
        assert(self@.text() + tail@ =~= self@.text());
        self.complain(tail.as_slice())
    }

    /// Puts an error in flight.
    fn throw(&mut self, v: Slot)
        ensures
            final(self)@ == old(self)@.throw(v@),
    {
        self.error = v;
        assert(self@ =~= old(self)@.throw(v@));
    }

    /// Replaces what lies from `p` on by `vs`.
    fn put_results(&mut self, p: usize, vs: Vec<Slot>)
        requires
            p <= old(self)@.stack.len(),
            p + vs@.len() <= MAX_STACK,
        ensures
            final(self)@ == old(self)@.back(
                old(self)@,
                old(self)@.stack.take(p as int) + values(vs@),
            ),
    {
        let ghost s = self@;
        let ghost g = vs@;
        let mut vs = vs;
        self.stack.truncate(p);
        self.stack.append(&mut vs);
        if self.stack.len() > self.room as usize {
            self.room = self.stack.len() as u32;
        }
        assert(self@ =~= s.back(s, s.stack.take(p as int) + values(g)));
    }
}

/// No values.
fn none() -> (r: Vec<Slot>)
    ensures
        values(r@) == Seq::<Value>::empty(),
{
    let r: Vec<Slot> = Vec::new();
    assert(values(r@) =~= Seq::<Value>::empty());
    r
}

/// One value.
fn one(v: Slot) -> (r: Vec<Slot>)
    ensures
        r@.len() == 1,
        r@[0]@ == v@,
        values(r@) == seq![v@],
{
    let mut r: Vec<Slot> = Vec::new();
    r.push(v);
    assert(values(r@) =~= seq![v@]);
    r
}

/// The error object of a failed allocation, as the only value.
fn memory_error() -> (r: Vec<Slot>)
    ensures
        r@.len() == 1,
        r@[0]@ == memory_message(),
{
    one(Slot::Str(copy_bytes("not enough memory".as_bytes())))
}

/// The first of `vs`, or nil.
fn first(vs: Vec<Slot>) -> (r: Slot)
    ensures
        r@ == adjust(values(vs@), 1)[0],
{
    if vs.len() > 0 {
        vs[0].clone()
    } else {
        Slot::Nil
    }
}

/// The frame of a caller, set aside while a callee runs.
struct Frame {
    stack: Vec<Slot>,
    room: u32,
    upvalues: Vec<Slot>,
    error: Slot,
}

proof fn lemma_enter<O>(s: State<O>, upvalues: Seq<Value>, args: Seq<Value>)
    requires
        s.wf(),
        args.len() + MIN_STACK <= MAX_STACK,
    ensures
        s.enter(upvalues, args).wf(),
        s.spent().wf(),
{
}

proof fn lemma_replied<O>(s: State<O>)
    requires
        s.wf(),
    ensures
        s.replied().wf(),
        s.ready() ==> s.replied().ready(),
        forall|c: Call| (#[trigger] s.asked(c)).wf() && (s.ready() ==> s.asked(c).ready()),
        s.reply().outcome matches Outcome::Raises(status, _) ==> known(status, s.env.version),
{
}

impl<O> Machine<O> {
    /// Replaces the top value.
    fn set_last(&mut self, v: Slot)
        requires
            old(self)@.stack.len() >= 1,
        ensures
            final(self)@ == old(self)@.with_stack(old(self)@.stack.drop_last().push(v@)),
    {
        let ghost s = self@;
        let i: usize = self.stack.len() - 1;
        self.stack.set(i, v);
        assert(self@ =~= s.with_stack(s.stack.drop_last().push(v@)));
    }

    /// Drops what lies from `n` on.
    fn cut(&mut self, n: usize)
        requires
            n <= old(self)@.stack.len(),
        ensures
            final(self)@ == old(self)@.with_stack(old(self)@.stack.take(n as int)),
    {
        let ghost s = self@;
        self.stack.truncate(n);
        assert(self@ =~= s.with_stack(s.stack.take(n as int)));
    }

    fn can_enter(&self, n: usize) -> (b: bool)
        requires
            n <= MAX_STACK,
        ensures
            b == self@.can_enter(n as int),
    {
        self.objects.len() < self.limit as usize && n + MIN_STACK as usize <= MAX_STACK as usize
    }

    /// Enters a C function.
    fn enter(&mut self, upvalues: Vec<Slot>, args: Vec<Slot>)
        requires
            old(self)@.grant(),
            args@.len() + MIN_STACK <= MAX_STACK,
        ensures
            final(self)@ == old(self)@.enter(values(upvalues@), values(args@)),
    {
        let ghost s = self@;
        let _ = self.allocate(Object::Blank);
        self.room = args.len() as u32 + MIN_STACK as u32;
        self.stack = args;
        self.upvalues = upvalues;
        assert(self@ =~= s.enter(values(upvalues@), values(args@)));
    }

    /// The topmost `n` values.
    fn results(&self, n: i32) -> (r: Vec<Slot>)
        requires
            0 <= n <= self@.stack.len(),
        ensures
            values(r@) == self@.stack.skip(self@.stack.len() - n),
    {
        let mut r: Vec<Slot> = Vec::new();
        let mut i: usize = self.stack.len() - n as usize;
        let ghost k = i as int;
        while i < self.stack.len()
            invariant
                k <= i <= self.stack.len(),
                r.len() == i - k,
                forall|j: int| #![auto] 0 <= j < i - k ==> r@[j]@ == self.stack@[k + j]@,
            decreases self.stack.len() - i,
        {
            r.push(self.stack[i].clone());
            i = i + 1;
        }
        assert(values(r@) =~= self@.stack.skip(k));
        r
    }

    /// Back in the frame `f`, with `vs` on top.
    fn leave(&mut self, f: Frame, vs: Vec<Slot>)
        requires
            f.stack@.len() + vs@.len() <= MAX_STACK,
        ensures
            ({
                let stack = values(f.stack@) + values(vs@);
                final(self)@ == (State {
                    stack,
                    room: if stack.len() > f.room as nat {
                        stack.len()
                    } else {
                        f.room as nat
                    },
                    upvalues: values(f.upvalues@),
                    error: f.error@,
                    ..old(self)@
                })
            }),
            vs@.len() == 1 ==> final(self)@.stack == values(f.stack@).push(vs@[0]@),
    {
        let ghost s = self@;
        let ghost g = values(f.stack@) + values(vs@);
        let ghost l = vs@.len();
        let ghost v0 = vs@[0]@;
        let mut vs = vs;
        let mut stack = f.stack;
        stack.append(&mut vs);
        self.room = if stack.len() > f.room as usize {
            stack.len() as u32
        } else {
            f.room
        };
        self.stack = stack;
        self.upvalues = f.upvalues;
        self.error = f.error;
        assert(self@.stack =~= g);
        assert(l == 1 ==> g =~= values(f.stack@).push(v0));
        assert(self@ =~= (State {
            stack: g,
            room: if g.len() > f.room as nat {
                g.len()
            } else {
                f.room as nat
            },
            upvalues: values(f.upvalues@),
            error: f.error@,
            ..s
        }));
    }

    /// The frame as it is below `p`.
    fn snapshot(&self, p: usize) -> (f: Frame)
        requires
            p <= self@.stack.len(),
        ensures
            values(f.stack@) == self@.stack.take(p as int),
            f.room == self@.room,
            values(f.upvalues@) == self@.upvalues,
            f.error@ == self@.error,
    {
        let stack = copy_slots(&self.stack, p);
        let upvalues = copy_slots(&self.upvalues, self.upvalues.len());
        assert(values(stack@) =~= self@.stack.take(p as int));
        assert(values(upvalues@) =~= self@.upvalues);
        Frame { stack, room: self.room, upvalues, error: self.error.clone() }
    }

    /// Replaces what lies from `p` on by the error `v`.
    fn put_error(&mut self, p: usize, v: Slot)
        requires
            p < MAX_STACK,
            p <= old(self)@.stack.len(),
        ensures
            final(self)@ == old(self)@.back(
                old(self)@,
                old(self)@.stack.take(p as int).push(v@),
            ),
    {
        let ghost s = self@;
        self.put_results(p, one(v));
        assert(s.stack.take(p as int).push(v@) =~= s.stack.take(p as int) + seq![v@]);
    }

    /// Writes the value on top to the table `t`, under the key below it.
    fn store(&mut self, t: u64) -> (r: Result<(), Raised>)
        requires
            old(self)@.stack.len() >= 2,
            old(self)@.heap.tables.contains_key(t),
        ensures
            (final(self)@, r) == rawset(old(self)@, t),
    {
        let n: usize = self.stack.len();
        if !self.stack[n - 2].is_key() {
            return Err(self.complain_plainly());
        }
        match self.allocate(Object::Blank) {
            Some(_) => {
                let k = self.stack[n - 2].clone();
                let v = self.stack[n - 1].clone();
                self.cut(n - 2);
                self.set_entry(t, &k, v);
                Ok(())
            },
            None => Err(self.starve()),
        }
    }

    /// Hands the error `v` to the message handler `h`.
    fn handle<H: CFn<Self>>(&mut self, h: H, upvalues: Vec<Slot>, v: Slot) -> (r: (Status, Slot))
        requires
            old(self)@.wf(),
            handler_accepts::<Self, H>(old(self)@, h, values(upvalues@), v@),
        ensures
            (final(self)@, r.0, r.1@) == handled::<Self, H>(
                old(self)@,
                h,
                values(upvalues@),
                v@,
            ),
            final(self)@.wf(),
            old(self)@.ready() ==> final(self)@.ready(),
            final(self)@.env == old(self)@.env,
            known(r.0, old(self)@.env.version),
    {
        let ghost s = self@;
        proof {
            lemma_enter(s, values(upvalues@), seq![v@]);
        }
        if !self.can_enter(1) {
            let _ = self.allocate(Object::Blank);
            return (Status::ErrMem, Slot::Str(copy_bytes("not enough memory".as_bytes())));
        }
        let _ = self.enter(upvalues, one(v));
        assert(h.accepts(self@));
        match h.run(self) {
            Ok((n, _)) => {
                let w = if n > 0 {
                    self.stack[self.stack.len() - n as usize].clone()
                } else {
                    Slot::Nil
                };
                (Status::ErrRun, w)
            },
            Err(e) => if e.status == Status::ErrMem {
                (Status::ErrMem, self.error.clone())
            } else {
                proof {
                    lemma_replied(self@);
                }
                let w = self.error.clone();
                match self.answered() {
                    Answer::Raises(status, w) => (status, w),
                    Answer::Returns(_) => (Status::ErrErr, w),
                }
            },
        }
    }
}

impl<O> Lua for Machine<O> {
    fn version(&self) -> (v: LuaVersion) {
        self.facts.version
    }

    fn thread(&self) -> (t: u64) {
        self.facts.thread
    }

    fn gettop(&self) -> (n: i32) {
        self.stack.len() as i32
    }

    fn settop(&mut self, idx: i32) {
        let ghost s = self@;
        let n: i32 = if idx >= 0 {
            idx
        } else {
            self.stack.len() as i32 + idx + 1
        };
        resize(&mut self.stack, n as usize);
        assert(self@ =~= s.with_stack(adjust(s.stack, n as int)));
    }

    fn checkstack(&mut self, n: i32) -> (r: bool) {
        let ghost s = self@;
        let need: u64 = self.stack.len() as u64 + n as u64;
        if need <= self.room as u64 {
            return true;
        }
        if need > MAX_STACK as u64 {
            return false;
        }
        match self.allocate(Object::Blank) {
            Some(_) => {
                self.room = need as u32;
                assert(self@ =~= s.grown(n as int));
                true
            },
            None => false,
        }
    }

    fn checkstack_or_raise(&mut self, n: i32, msg: Option<&str>) -> (r: Result<(), Raised>) {
        if self.checkstack(n) {
            return Ok(());
        }
        let tail: String = match msg {
            Some(m) => {
                let mut t = "stack overflow (".to_owned();
                t.append(m);
                t.append(")");
                t
            },
            None => "stack overflow".to_owned(),
        };
        Err(self.complain(tail.as_str().as_bytes()))
    }

    fn pushvalue(&mut self, idx: i32) {
        let v = self.value(idx);
        self.push(v);
    }

    fn rotate(&mut self, idx: i32, n: i32) {
        let ghost s = self@;
        let p = self.position(idx);
        let m: usize = if n >= 0 {
            self.stack.len() - n as usize
        } else {
            (p as i32 - n) as usize
        };
        let mut tail = self.stack.split_off(m);
        let mut middle = self.stack.split_off(p);
        self.stack.append(&mut tail);
        self.stack.append(&mut middle);
        assert(self@ =~= s.with_stack(rotated(s.stack, p as int, n as int)));
    }

    fn copy(&mut self, from: i32, to: i32) {
        let ghost s = self@;
        let v = self.value(from);
        let p = self.position(to);
        self.stack.set(p, v);
        assert(self@ =~= s.with_stack(s.stack.update(p as int, v@)));
    }

    fn pushnil(&mut self) {
        self.push(Slot::Nil);
    }

    fn pushboolean(&mut self, b: bool) {
        self.push(Slot::Boolean(b));
    }

    fn pushcfunction(&mut self, f: CFunction) {
        self.push(Slot::CFunction(f));
    }

    fn pushlightuserdata(&mut self, p: Pointer) {
        self.push(Slot::LightUserdata(p));
    }

    fn pushlstring(&mut self, s: &[u8]) -> (r: Result<(), Raised>) {
        match self.allocate(Object::Blank) {
            Some(_) => {
                self.push(Slot::Str(copy_bytes(s)));
                Ok(())
            },
            None => Err(self.starve()),
        }
    }

    fn createtable(&mut self, narr: i32, nrec: i32) -> (r: Result<(), Raised>) {
        let entries: Assoc<Slot> = Assoc::new();
        let ghost o = Object::<O>::Table { entries, metatable: None };
        assert(table_model(o) =~= TableModel::empty());
        match self.allocate(Object::Table { entries, metatable: None }) {
            Some(a) => {
                self.push(Slot::Table(a));
                Ok(())
            },
            None => Err(self.starve()),
        }
    }

    fn newuserdata(&mut self) -> (r: Result<u64, Raised>) {
        match self.allocate(Object::Userdata { payload: Payload::Vacant, metatable: None }) {
            Some(a) => {
                self.push(Slot::Userdata(a));
                Ok(a)
            },
            None => Err(self.starve()),
        }
    }

    fn pushcclosure(&mut self, f: CFunction, n: i32) -> (r: Result<(), Raised>) {
        let ghost s = self@;
        let p: usize = self.stack.len() - n as usize;
        if self.objects.len() >= self.limit as usize {
            return Err(self.starve());
        }
        let upvalues = self.stack.split_off(p);
        assert(values(upvalues@) =~= s.stack.skip(p as int));
        assert(self@ =~= s.with_stack(s.stack.take(p as int)));
        match self.allocate(Object::Closure { function: f, upvalues }) {
            Some(a) => {
                self.push(Slot::Closure(a));
                Ok(())
            },
            None => Err(self.starve()),
        }
    }

    fn type_of(&self, idx: i32) -> (t: LuaType) {
        if self.is_valid(idx) {
            self.value(idx).tag()
        } else {
            LuaType::Absent
        }
    }

    fn toboolean(&self, idx: i32) -> (b: bool) {
        self.value(idx).truthy()
    }

    fn tointegerx(&self, idx: i32) -> (i: Option<i64>) {
        let v = self.value(idx);
        match &v {
            Slot::Integer(i) => Some(*i),
            Slot::Number { text: _, whole } => *whole,
            Slot::Str(_) => match self.facts.numerals.get(&v) {
                Some(i) => Some(*i),
                None => None,
            },
            _ => None,
        }
    }

    fn number_text(&self, idx: i32) -> (t: String) {
        let v = self.value(idx);
        match &v {
            Slot::Number { text, whole: _ } => text.clone(),
            _ => match self.facts.widened.get(&v) {
                Some(t) => t.clone(),
                None => {
                    let t = String::new();
                    assert(t@ =~= Seq::<char>::empty());
                    t
                },
            },
        }
    }

    fn string(&self, idx: i32) -> (s: Vec<u8>) {
        match self.value(idx) {
            Slot::Str(s) => s,
            _ => Vec::new(),
        }
    }

    fn tostring(&mut self, idx: i32) -> (r: Result<Option<Vec<u8>>, Raised>) {
        let ghost s = self@;
        let v = self.value(idx);
        match &v {
            Slot::Str(s) => Ok(Some(copy_bytes(s.as_slice()))),
            Slot::Integer(_) | Slot::Number { .. } => {
                let text = match self.facts.number_strings.get(&v) {
                    Some(s) => copy_bytes(s.as_slice()),
                    None => Vec::new(),
                };
                match self.allocate(Object::Blank) {
                    Some(_) => {
                        let p = self.position(idx);
                        self.stack.set(p, Slot::Str(copy_bytes(text.as_slice())));
                        assert(self@ =~= tostring(s, idx as int).0);
                        Ok(Some(text))
                    },
                    None => Err(self.starve()),
                }
            },
            _ => Ok(None),
        }
    }

    fn touserdata(&self, idx: i32) -> (a: Option<u64>) {
        if !self.is_valid(idx) {
            return None;
        }
        let v = self.value(idx);
        match &v {
            Slot::Userdata(a) => Some(*a),
            Slot::LightUserdata(_) => {
                let a = self.topointer(idx);
                if a == 0 {
                    None
                } else {
                    Some(a)
                }
            },
            _ => None,
        }
    }

    fn topointer(&self, idx: i32) -> (a: u64) {
        let v = self.value(idx);
        match &v {
            Slot::Table(a) => *a,
            Slot::Closure(a) => *a,
            Slot::Userdata(a) => *a,
            Slot::Thread(a) => *a,
            Slot::LightUserdata(Pointer::Host(a)) => *a,
            _ => match self.facts.addresses.get(&v) {
                Some(a) => *a,
                None => 0,
            },
        }
    }

    fn tothread(&self, idx: i32) -> (t: Option<u64>) {
        match self.value(idx) {
            Slot::Thread(a) => Some(a),
            _ => None,
        }
    }

    fn pushthread(&mut self) -> (main: bool) {
        self.push(Slot::Thread(self.facts.thread));
        self.facts.main_thread
    }

    fn rawequal(&self, i: i32, j: i32) -> (b: bool) {
        let v = self.value(i);
        v.key() == self.value(j).key() && !v.is_nan()
    }

    fn getmetatable(&mut self, idx: i32) -> (r: bool) {
        match self.metatable(&self.value(idx)) {
            Some(t) => {
                self.push(Slot::Table(t));
                true
            },
            None => false,
        }
    }

    fn setmetatable(&mut self, idx: i32) {
        let v = self.value(idx);
        let n: usize = self.stack.len() - 1;
        let m: Option<u64> = match &self.stack[n] {
            Slot::Table(t) => Some(*t),
            _ => None,
        };
        self.cut(n);
        self.set_metatable(&v, m);
    }

    fn rawget(&mut self, idx: i32) -> (t: LuaType) {
        let v = self.entry(self.table(idx), &self.stack[self.stack.len() - 1]);
        let t = v.tag();
        self.set_last(v);
        t
    }

    fn rawset(&mut self, idx: i32) -> (r: Result<(), Raised>) {
        let t = self.table(idx);
        self.store(t)
    }

    fn rawgetp(&mut self, idx: i32, p: Pointer) -> (t: LuaType) {
        let v = self.entry(self.table(idx), &Slot::LightUserdata(p));
        let t = v.tag();
        self.push(v);
        t
    }

    fn rawsetp(&mut self, idx: i32, p: Pointer) -> (r: Result<(), Raised>) {
        let t = self.table(idx);
        let n: usize = self.stack.len() - 1;
        match self.allocate(Object::Blank) {
            Some(_) => {
                let v = self.stack[n].clone();
                self.cut(n);
                self.set_entry(t, &Slot::LightUserdata(p), v);
                Ok(())
            },
            None => Err(self.starve()),
        }
    }

    fn rawgeti(&mut self, idx: i32, i: i64) -> (t: LuaType) {
        let v = self.entry(self.table(idx), &Slot::Integer(i));
        let t = v.tag();
        self.push(v);
        t
    }

    fn gettable(&mut self, idx: i32) -> (r: Result<(), Raised>) {
        let t = self.table(idx);
        let v = self.entry(t, &self.stack[self.stack.len() - 1]);
        if !v.is_nil() || self.metamethod(&Slot::Table(t), "__index").is_nil() {
            self.set_last(v);
            return Ok(());
        }
        let k = self.stack[self.stack.len() - 1].clone();
        match self.answer(Asked::Index(Slot::Table(t), k)) {
            Answer::Returns(vs) => {
                self.set_last(first(vs));
                Ok(())
            },
            Answer::Raises(status, w) => {
                self.throw(w);
                Err(Raised { status })
            },
        }
    }

    fn settable(&mut self, idx: i32) -> (r: Result<(), Raised>) {
        let t = self.table(idx);
        let n: usize = self.stack.len();
        if !self.entry(t, &self.stack[n - 2]).is_nil() || self.metamethod(
            &Slot::Table(t),
            "__newindex",
        ).is_nil() {
            return self.store(t);
        }
        let k = self.stack[n - 2].clone();
        let v = self.stack[n - 1].clone();
        match self.answer(Asked::Newindex(Slot::Table(t), k, v)) {
            Answer::Returns(_) => {
                self.cut(n - 2);
                Ok(())
            },
            Answer::Raises(status, w) => {
                self.throw(w);
                Err(Raised { status })
            },
        }
    }

    fn call(&mut self, nargs: i32, nresults: i32) -> (r: Result<(), Raised>) {
        let p: usize = self.stack.len() - nargs as usize - 1;
        match self.answer_call(nargs) {
            Answer::Returns(vs) => {
                let vs = fit(vs, nresults);
                if vs.len() <= MAX_STACK as usize - p {
                    self.put_results(p, vs);
                    Ok(())
                } else {
                    Err(self.starve())
                }
            },
            Answer::Raises(status, v) => {
                self.throw(v);
                Err(Raised { status })
            },
        }
    }

    fn pcall(&mut self, nargs: i32, nresults: i32) -> (status: Status) {
        let p: usize = self.stack.len() - nargs as usize - 1;
        match self.answer_call(nargs) {
            Answer::Returns(vs) => {
                let vs = fit(vs, nresults);
                if vs.len() <= MAX_STACK as usize - p {
                    self.put_results(p, vs);
                    Status::Success
                } else {
                    self.put_error(p, Slot::Str(copy_bytes("not enough memory".as_bytes())));
                    Status::ErrMem
                }
            },
            Answer::Raises(status, v) => {
                self.put_error(p, v);
                status
            },
        }
    }

    fn xpcall<H: CFn<Self>>(&mut self, h: H, nargs: i32, nresults: i32, msgh: i32) -> (status:
        Status) {
        let ghost s = self@;
        let p: usize = self.stack.len() - nargs as usize - 1;
        let handler = self.bound(&self.value(msgh));
        proof {
            lemma_replied(s);
        }
        match self.answer_call(nargs) {
            Answer::Returns(vs) => {
                let vs = fit(vs, nresults);
                if vs.len() <= MAX_STACK as usize - p {
                    self.put_results(p, vs);
                    Status::Success
                } else {
                    self.put_error(p, Slot::Str(copy_bytes("not enough memory".as_bytes())));
                    Status::ErrMem
                }
            },
            Answer::Raises(status, v) => {
                if status == Status::ErrRun {
                    let frame = self.snapshot(p);
                    let (status, w) = self.handle(h, handler, v);
                    self.leave(frame, one(w));
                    status
                } else {
                    self.put_error(p, v);
                    status
                }
            },
        }
    }

    #[verifier::rlimit(40)]
    fn pcall_run<B: CFn<Self>, H: CFn<Self>>(
        &mut self,
        b: B,
        h: H,
        nargs: i32,
        nresults: i32,
        msgh: i32,
    ) -> (r: (Status, Option<B::Value>)) {
        let ghost s = self@;
        let p: usize = self.stack.len() - nargs as usize - 1;
        let upvalues = self.bound(&self.stack[p]);
        let handler = self.bound(&self.value(msgh));
        if !self.can_enter(nargs as usize) {
            proof {
                lemma_enter(s, Seq::empty(), Seq::empty());
            }
            let _ = self.allocate(Object::Blank);
            self.put_error(p, Slot::Str(copy_bytes("not enough memory".as_bytes())));
            return (Status::ErrMem, None);
        }
        let frame = self.snapshot(p);
        let args = self.stack.split_off(p + 1);
        proof {
            assert(values(args@) =~= s.args(nargs as int));
            lemma_enter(s, values(upvalues@), values(args@));
        }
        self.enter(upvalues, args);
        assert(self@ =~= s.enter(s.heap.upvalues(s.callee(nargs as int)), s.args(nargs as int)));
        match b.run(self) {
            Ok((n, v)) => {
                let results = self.results(n);
                let results = fit(results, nresults);
                if results.len() <= MAX_STACK as usize - p {
                    self.leave(frame, results);
                    (Status::Success, Some(v))
                } else {
                    self.leave(frame, memory_error());
                    (Status::ErrMem, None)
                }
            },
            Err(e) => {
                let v = self.error.clone();
                if e.status == Status::ErrRun {
                    let (status, w) = self.handle(h, handler, v);
                    self.leave(frame, one(w));
                    (status, None)
                } else {
                    self.leave(frame, one(v));
                    (e.status, None)
                }
            },
        }
    }

    fn error(&mut self) -> (e: Raised) {
        let n: usize = self.stack.len() - 1;
        let v = self.stack[n].clone();
        self.cut(n);
        self.throw(v);
        Raised { status: Status::ErrRun }
    }

    fn raise(&mut self, msg: &[u8]) -> (e: Raised) {
        self.complain(msg)
    }

    fn tolstring(&mut self, idx: i32) -> (r: Result<(), Raised>) {
        let v = self.value(idx);
        if v.tag() == LuaType::Str && self.metamethod(&v, "__tostring").is_nil() {
            self.push(v);
            return Ok(());
        }
        match self.answer(Asked::Text(v)) {
            Answer::Returns(vs) => {
                if vs.len() > 0 && vs[0].tag() == LuaType::Str {
                    self.push(vs[0].clone());
                    Ok(())
                } else {
                    Err(self.complain_plainly())
                }
            },
            Answer::Raises(status, w) => {
                self.throw(w);
                Err(Raised { status })
            },
        }
    }

    fn traceback(&mut self, msg: Option<&[u8]>, level: i32) -> (r: Result<(), Raised>) {
        match self.allocate(Object::Blank) {
            Some(_) => {
                self.note(Asked::Traceback(level));
                let text = self.written();
                let text = match msg {
                    Some(m) => join_bytes(copy_c_string(m).as_slice(), text.as_slice()),
                    None => {
                        assert(Seq::<u8>::empty() + text@ =~= text@);
                        text
                    },
                };
                self.push(Slot::Str(text));
                Ok(())
            },
            None => Err(self.starve()),
        }
    }

    fn payload(&self, a: u64) -> (p: &Payload<O>) {
        let i: usize = (a - 1) as usize;
        assert(used(self.objects@, a) && object(self.objects@, a) is Userdata);
        assert(a <= self.objects.len());
        assert(i == a - 1);
        match &self.objects[i] {
            Object::Userdata { payload, metatable: _ } => payload,
            _ => {
                assert(false);
                &Payload::Vacant
            },
        }
    }

    fn take_payload(&mut self, a: u64) -> (p: Payload<O>) {
        self.swap_payload(a, Payload::Vacant)
    }

    fn put_payload(&mut self, a: u64, p: Payload<O>) {
        let _ = self.swap_payload(a, p);
    }

    fn is_cached(&self, key: TypeKey) -> (b: bool) {
        self.cached.contains(key)
    }

    fn cache(&mut self, key: TypeKey) {
        let ghost s = self@;
        self.cached.insert(key);
        assert(self@ =~= s.with_heap(Heap { cached: s.heap.cached.insert(key), ..s.heap }));
    }
}

} // verus!

//! The metatables of failures and of destructed userdata, and what their metamethods do.

use vstd::prelude::*;

use crate::api::Lua;
use crate::callback::callback_error;
use crate::callback::callback_frame;
use crate::callback::callback_run;
use crate::callback::callback_slots;
use crate::callback::Callback;
use crate::callback::Ending;
use crate::callback::EndingModel;
use crate::failure::get_gc_userdata;
use crate::lemmas::lemma_granted;
use crate::lemmas::lemma_payload_wf;
use crate::lemmas::lemma_requests;
use crate::lemmas::lemma_set_wf;
use crate::metatable::customized;
use crate::metatable::gc_metatable;
use crate::metatable::gc_partial;
use crate::metatable::gc_prepared;
use crate::metatable::init_gc_metatable;
use crate::metatable::lemma_gc_prepared;
use crate::metatable::register;
use crate::metatable::Customize;
use crate::metatable::Plain;
use crate::stack::check_stack;
use crate::stack::pop;
use crate::state::granted;
use crate::state::grants;
use crate::state::name;
use crate::state::starved;
use crate::state::Heap;
use crate::state::State;
use crate::state::TableModel;
use crate::text::chain_message;
use crate::text::chain_text;
use crate::text::panic_message;
use crate::text::panic_text;
use crate::text::texts_of;
use crate::userdata::gc_pushed;
use crate::userdata::memory_failure;
use crate::userdata::push_gc_userdata;
use crate::userdata::push_string;
use crate::userdata::push_table;
use crate::userdata::rawset_field;
use crate::userdata::starves;
use crate::value::CFunction;
use crate::value::Error;
use crate::value::ErrorModel;
use crate::value::Failed;
use crate::value::Failure;
use crate::value::FailureModel;
use crate::value::LuaVersion;
use crate::value::Payload;
use crate::value::PayloadModel;
use crate::value::Pointer;
use crate::value::Raised;
use crate::value::TypeKey;
use crate::value::Value;
use crate::value::WrappedFailure;
use crate::value::FAILURE_KEY;
use crate::value::REGISTRY_INDEX;
use crate::value::TEXT_KEY;

verus! {

/// The text of the failure `w`: for an error the message of its chain, whose texts are `texts`,
/// and for a panic that of the panic, or nothing once the panic was resumed.
pub open spec fn failure_text(w: FailureModel, texts: Seq<Seq<char>>) -> Option<Seq<char>> {
    match w {
        FailureModel::Error(_) => Some(chain_message(texts)),
        FailureModel::Panic(Some(p)) => Some(panic_message(p)),
        FailureModel::Panic(None) => None,
    }
}

/// What the work of `error_tostring` does.
pub open spec fn tostring_run<O>(s0: State<O>, texts: Seq<Seq<char>>) -> (
    State<O>,
    EndingModel<i32>,
) {
    let s = s0.grown(3);
    let v = s.stack.last();
    if !s0.grows(3) {
        (s, EndingModel::Failed(ErrorModel::StackError))
    } else {
        match s.heap.failure(v) {
            None => (s, EndingModel::Failed(ErrorModel::UserDataTypeMismatch)),
            Some(w) => match failure_text(w, texts) {
                None => (s, EndingModel::Failed(ErrorModel::PreviouslyResumedPanic)),
                Some(text) => {
                    let b = s.heap.registered(Pointer::ErrorPrintBuffer)->Userdata_0;
                    if grants(s.memory, 2) {
                        (
                            s.after(2).pop(1).push(
                                Value::Str(vstd::utf8::encode_utf8(text)),
                            ).with_heap(
                                s.heap.with_payload(b, PayloadModel::Text(Seq::empty())),
                            ),
                            EndingModel::Returned(1),
                        )
                    } else {
                        (
                            s.starved().pop(1).with_heap(
                                s.heap.with_payload(b, PayloadModel::Text(text)),
                            ),
                            EndingModel::Failed(memory_failure()->Error_0),
                        )
                    }
                },
            },
        }
    }
}

/// Pushes the text of the failure on top. `texts` holds the texts of the error, if it wraps one,
/// and of its sources.
pub struct FailureText {
    pub texts: Vec<String>,
}

/// The print buffer is in place, and is not the userdata on which a callback may fail.
pub open spec fn prints<O>(s: State<O>) -> bool {
    &&& s.heap.buffer() is Some
    &&& s.stack[0] != s.heap.registered(Pointer::ErrorPrintBuffer)
}

impl<L: Lua> Callback<L> for FailureText {
    type Value = i32;

    open spec fn accepts(&self, s: State<L::Object>) -> bool {
        &&& self.texts@.len() > 0
        &&& prints(s)
        &&& s.tells(s.stack.last(), FAILURE_KEY)
    }

    open spec fn effect(&self, s: State<L::Object>) -> (
        State<L::Object>,
        EndingModel<i32>,
    ) {
        tostring_run(s, texts_of(self.texts@))
    }

    fn run(self, state: &mut L, nargs: i32) -> (r: Ending<i32>) {
        match check_stack(state, 3) {
            Ok(_) => {},
            Err(e) => {
                return Ending::Failed(e);
            },
        }
        let ghost s = state@;
        let ud: u64 = match get_gc_userdata(state, -1, FAILURE_KEY) {
            Some(ud) => ud,
            None => {
                return Ending::Failed(Error::UserDataTypeMismatch);
            },
        };
        let text = match state.payload(ud) {
            Payload::Failure(WrappedFailure::Error(_)) => chain_text(&self.texts),
            Payload::Failure(WrappedFailure::Panic(Some(p))) => panic_text(p),
            _ => {
                return Ending::Failed(Error::PreviouslyResumedPanic);
            },
        };
        state.rawgetp(REGISTRY_INDEX, Pointer::ErrorPrintBuffer);
        let buf: u64 = match state.touserdata(-1) {
            Some(buf) => buf,
            None => 0,
        };
        pop(state, 2);
        assert(state@ =~= s.pop(1));
        let printed = text.clone();
        proof {
            lemma_payload_wf(s.heap, buf, PayloadModel::Text(text@));
            lemma_payload_wf(s.heap, buf, PayloadModel::Text(Seq::empty()));
        }
        state.put_payload(buf, Payload::Text(text));
        let ghost h = state@.heap;
        assert(forall|q: Pointer| #[trigger] h.registered(q) == s.heap.registered(q));
        match push_string(state, printed.as_str().as_bytes()) {
            Ok(_) => {},
            Err(Failure::Error(e)) => {
                return Ending::Failed(e);
            },
            Err(Failure::Panic(p)) => {
                return Ending::Panicked(p);
            },
        }
        state.put_payload(buf, Payload::Text(String::new()));
        proof {
            let g = s.heap.with_payload(buf, PayloadModel::Text(Seq::empty()));
            assert(state@.heap =~= g);
            assert(forall|q: Pointer| #[trigger] g.registered(q) == s.heap.registered(q));
        }
        Ending::Returned(1)
    }
}

/// The `__tostring` metamethod of failures: replaces the failure by its text.
///
/// `texts` holds the texts of the error that the failure wraps, if it wraps one, and of its
/// sources, from the nearest on.
pub fn error_tostring<L: Lua>(state: &mut L, texts: Vec<String>) -> (r: Result<i32, Raised>)
    requires
        old(state)@.ready(),
        texts@.len() > 0,
        old(state)@.heap.buffer() is Some,
        old(state)@.heap.registered(Pointer::GcMetatable(FAILURE_KEY)) is Table
            || old(state)@.heap.registered(Pointer::GcMetatable(FAILURE_KEY)) is Nil,
    ensures
        (final(state)@, r) == callback_run::<L, FailureText>(old(state)@, FailureText { texts }),
        final(state)@.ready(),
{
    proof {
        let n = state@.stack.len() as int;
        let s = state@.grown(callback_slots(n));
        if s.grant() {
            let a = s.memory[0]->0;
            let f = callback_frame(s, a);
            assert(s.heap.free(a));
            assert(forall|q: Pointer| #[trigger] f.heap.registered(q) == s.heap.registered(q));
        }
    }
    callback_error(state, FailureText { texts })
}

/// Fails, whatever it is called with.
pub struct Destructed;

impl<L: Lua> Callback<L> for Destructed {
    type Value = i32;

    open spec fn accepts(&self, s: State<L::Object>) -> bool {
        true
    }

    open spec fn effect(&self, s: State<L::Object>) -> (
        State<L::Object>,
        EndingModel<i32>,
    ) {
        (s, EndingModel::Failed(ErrorModel::CallbackDestructed))
    }

    fn run(self, state: &mut L, nargs: i32) -> (r: Ending<i32>) {
        Ending::Failed(Error::CallbackDestructed)
    }
}

/// Every metamethod of destructed userdata: raises an error.
pub fn destructed_error<L: Lua>(state: &mut L) -> (r: Result<i32, Raised>)
    requires
        old(state)@.ready(),
        old(state)@.heap.registered(Pointer::GcMetatable(FAILURE_KEY)) is Table
            || old(state)@.heap.registered(Pointer::GcMetatable(FAILURE_KEY)) is Nil,
    ensures
        (final(state)@, r) == callback_run::<L, Destructed>(old(state)@, Destructed),
        r is Err,
        final(state)@.ready(),
{
    callback_error(state, Destructed)
}

/// The metamethods of `version` that a destructed userdata answers with an error.
pub open spec fn metamethods(version: LuaVersion) -> Seq<Seq<char>> {
    let v54 = version == LuaVersion::Lua54;
    let v53 = version == LuaVersion::Lua53;
    let v52 = version == LuaVersion::Lua52;
    seq!["__add"@, "__sub"@, "__mul"@, "__div"@, "__mod"@, "__pow"@, "__unm"@] + (if v54 || v53 {
        seq!["__idiv"@, "__band"@, "__bor"@, "__bxor"@, "__bnot"@, "__shl"@, "__shr"@]
    } else {
        seq![]
    }) + seq![
        "__concat"@,
        "__len"@,
        "__eq"@,
        "__lt"@,
        "__le"@,
        "__index"@,
        "__newindex"@,
        "__call"@,
        "__tostring"@,
    ] + (if v54 || v53 || v52 {
        seq!["__pairs"@]
    } else {
        seq![]
    }) + (if v53 || v52 {
        seq!["__ipairs"@]
    } else {
        seq![]
    }) + (if v54 {
        seq!["__close"@]
    } else {
        seq![]
    })
}

/// The texts of string slices.
pub open spec fn slices(names: Seq<&str>) -> Seq<Seq<char>> {
    names.map_values(|n: &str| n@)
}

fn metamethod_names(version: LuaVersion) -> (r: Vec<&'static str>)
    ensures
        slices(r@) == metamethods(version),
{
    let v54 = version == LuaVersion::Lua54;
    let v53 = version == LuaVersion::Lua53;
    let v52 = version == LuaVersion::Lua52;
    let mut r: Vec<&'static str> = Vec::new();
    r.push("__add");
    r.push("__sub");
    r.push("__mul");
    r.push("__div");
    r.push("__mod");
    r.push("__pow");
    r.push("__unm");
    if v54 || v53 {
        r.push("__idiv");
        r.push("__band");
        r.push("__bor");
        r.push("__bxor");
        r.push("__bnot");
        r.push("__shl");
        r.push("__shr");
    }
    r.push("__concat");
    r.push("__len");
    r.push("__eq");
    r.push("__lt");
    r.push("__le");
    r.push("__index");
    r.push("__newindex");
    r.push("__call");
    r.push("__tostring");
    if v54 || v53 || v52 {
        r.push("__pairs");
    }
    if v53 || v52 {
        r.push("__ipairs");
    }
    if v54 {
        r.push("__close");
    }
    assert(slices(r@) =~= metamethods(version));
    r
}

/// The table `t` with `v` under each of `names`.
pub open spec fn with_all(t: TableModel, names: Seq<Seq<char>>, v: Value) -> TableModel
    decreases names.len(),
{
    if names.len() == 0 {
        t
    } else {
        with_all(t, names.drop_last(), v).set(
            Value::Str(vstd::utf8::encode_utf8(names.last())),
            v,
        )
    }
}

/// The metatable of destructed userdata.
pub open spec fn destructed_metatable(version: LuaVersion) -> TableModel {
    with_all(
        TableModel::empty(),
        metamethods(version),
        Value::CFunction(CFunction::DestructedError),
    )
}

/// What is left where the memory does not suffice for the metatable of destructed userdata: the
/// table, where there is one, and the function that goes into it are on top of the stack, and
/// the table has got its fields up to the one that failed.
pub open spec fn destructed_partial<O>(s: State<O>) -> State<O> {
    let d = s.memory[1]->0;
    let f = Value::CFunction(CFunction::DestructedError);
    let done = (granted(s.memory) - 2) / 3;
    if !grants(s.memory, 2) {
        s.starved()
    } else {
        s.starved().with_heap(
            Heap {
                tables: s.heap.tables.insert(
                    d,
                    with_all(TableModel::empty(), metamethods(s.env.version).take(done), f),
                ),
                ..s.heap
            },
        ).push(Value::Table(d)).push(f)
    }
}

/// Pushes the metatable of destructed userdata.
fn push_destructed_metatable<L: Lua>(state: &mut L) -> (r: Result<(), Failure>)
    requires
        old(state)@.wf(),
        old(state)@.spare() >= 7,
    ensures
        ({
            let s = old(state)@;
            let n = 2 + 3 * metamethods(s.env.version).len();
            let d = s.memory[1]->0;
            if grants(s.memory, n) {
                &&& r is Ok
                &&& final(state)@ == s.after(n).with_heap(
                    Heap {
                        tables: s.heap.tables.insert(d, destructed_metatable(s.env.version)),
                        ..s.heap
                    },
                ).push(Value::Table(d))
            } else {
                starves(r) && final(state)@ == destructed_partial(s)
            }
        }),
        final(state)@.wf(),
{
    let ghost s = state@;
    let ghost d = s.memory[1]->0;
    let ghost f = Value::CFunction(CFunction::DestructedError);
    let names = metamethod_names(state.version());
    let ghost all = slices(names@);
    proof {
        lemma_enough(s.memory, 2, 3 * all.len());
    }
    push_table(state, 0, 26)?;
    state.pushcfunction(CFunction::DestructedError);
    let mut i: usize = 0;
    proof {
        assert(state@ =~= s.after(2).with_heap(
            Heap {
                tables: s.heap.tables.insert(d, with_all(TableModel::empty(), all.take(0), f)),
                ..s.heap
            },
        ).push(Value::Table(d)).push(f));
    }
    while i < names.len()
        invariant
            i <= names@.len(),
            s == old(state)@,
            all == slices(names@),
            all == metamethods(s.env.version),
            s.wf(),
            s.spare() >= 7,
            f == Value::CFunction(CFunction::DestructedError),
            grants(s.memory, (2 + 3 * i) as nat),
            d == s.memory[1]->0,
            state@ == s.after((2 + 3 * i) as nat).with_heap(
                Heap {
                    tables: s.heap.tables.insert(
                        d,
                        with_all(TableModel::empty(), all.take(i as int), f),
                    ),
                    ..s.heap
                },
            ).push(Value::Table(d)).push(f),
            state@.wf(),
        decreases names@.len() - i,
    {
        proof {
            lemma_requests(s.memory, (2 + 3 * i) as nat, 3);
            lemma_enough(s.memory, (5 + 3 * i) as nat, (3 * (all.len() - i - 1)) as nat);
        }
        state.pushvalue(-1);
        let set = rawset_field(state, -3, names[i].as_bytes());
        proof {
            if set is Err {
                lemma_granted(s.memory, (2 + 3 * i) as nat);
                lemma_granted(s.memory, (5 + 3 * i) as nat);
                assert((granted(s.memory) - 2) / 3 == i);
                assert(state@ =~= destructed_partial(s));
            }
        }
        set?;
        proof {
            assert(all.take(i + 1).drop_last() =~= all.take(i as int));
            assert(all.take(i + 1).last() == names@[i as int]@);
            assert(state@ =~= s.after((2 + 3 * (i + 1)) as nat).with_heap(
                Heap {
                    tables: s.heap.tables.insert(
                        d,
                        with_all(TableModel::empty(), all.take(i + 1), f),
                    ),
                    ..s.heap
                },
            ).push(Value::Table(d)).push(f));
        }
        i = i + 1;
    }
    assert(all.take(all.len() as int) =~= all);
    pop(state, 1);
    assert(state@ =~= s.after((2 + 3 * all.len()) as nat).with_heap(
        Heap {
            tables: s.heap.tables.insert(d, destructed_metatable(s.env.version)),
            ..s.heap
        },
    ).push(Value::Table(d)));
    Ok(())
}

/// Fewer requests are granted where more are.
proof fn lemma_enough(m: Seq<Option<u64>>, k: nat, j: nat)
    ensures
        grants(m, k + j) ==> grants(m, k),
{
}

/// The heap with the table `m` at `t`, registered as the metatable of the type `key`.
pub open spec fn with_type<O>(h: Heap<O>, key: TypeKey, t: u64, m: TableModel) -> Heap<O> {
    (Heap { tables: h.tables.insert(t, m), cached: h.cached.insert(key), ..h }).register(
        Pointer::GcMetatable(key),
        Value::Table(t),
    )
}

/// Gives the failure metatable on top its `__tostring`.
pub struct TostringField;

impl<L: Lua> Customize<L> for TostringField {
    open spec fn accepts(&self, s: State<L::Object>) -> bool {
        &&& s.stack.len() >= 1
        &&& s.stack.last() matches Value::Table(t) && s.heap.tables.contains_key(t)
    }

    open spec fn effect(&self, s: State<L::Object>) -> (State<L::Object>, Result<(), Failed>) {
        if grants(s.memory, 3) {
            (
                s.after(3).with_heap(
                    s.heap.set(
                        s.stack.last()->Table_0,
                        name("__tostring"),
                        Value::CFunction(CFunction::ErrorTostring),
                    ),
                ),
                Ok(()),
            )
        } else {
            (s.starved(), Err(memory_failure()))
        }
    }

    fn run(self, state: &mut L) -> (r: Result<(), Failure>) {
        let ghost s = state@;
        state.pushcfunction(CFunction::ErrorTostring);
        let r = rawset_field(state, -2, "__tostring".as_bytes());
        proof {
            assert(state@ =~= <Self as Customize<L>>::effect(&self, s).0);
        }
        r
    }
}

/// The metatable of failures.
pub open spec fn failure_metatable() -> TableModel {
    gc_metatable(FAILURE_KEY).set(
        name("__tostring"),
        Value::CFunction(CFunction::ErrorTostring),
    )
}

/// What is left where the memory does not suffice for it.
pub open spec fn failure_partial<O>(s: State<O>) -> State<O> {
    let t = s.memory[1]->0;
    let p = gc_prepared(s, FAILURE_KEY);
    if !grants(s.memory, 8) {
        gc_partial(s, FAILURE_KEY)
    } else if !grants(s.memory, 11) {
        p.starved()
    } else {
        p.starved().with_heap(
            p.heap.set(t, name("__tostring"), Value::CFunction(CFunction::ErrorTostring)),
        ).pop(1)
    }
}

/// Registers the metatable of failures.
fn init_failure_metatable<L: Lua>(state: &mut L) -> (r: Result<(), Failure>)
    requires
        old(state)@.wf(),
        old(state)@.spare() >= 6,
        old(state)@.heap.cached.len() < old(state)@.env.cache_capacity,
    ensures
        ({
            let s = old(state)@;
            if grants(s.memory, 13) {
                &&& r is Ok
                &&& final(state)@ == s.after(13).with_heap(
                    with_type(s.heap, FAILURE_KEY, s.memory[1]->0, failure_metatable()),
                )
            } else {
                starves(r) && final(state)@ == failure_partial(s)
            }
        }),
        final(state)@.wf(),
{
    let ghost s = state@;
    let ghost t = s.memory[1]->0;
    proof {
        if grants(s.memory, 8) {
            lemma_gc_prepared(s, FAILURE_KEY);
            let p = gc_prepared(s, FAILURE_KEY);
            let u = customized::<L, TostringField>(Some(TostringField), p).0;
            assert(forall|q: Pointer| #[trigger] u.heap.registered(q) == p.heap.registered(q)) by {
                lemma_set_wf(
                    p.heap,
                    t,
                    name("__tostring"),
                    Value::CFunction(CFunction::ErrorTostring),
                );
            }
            lemma_requests(s.memory, 8, 3);
            lemma_requests(s.memory, 8, 5);
            if grants(s.memory, 11) {
                lemma_requests(s.memory, 11, 2);
            }
        }
        lemma_enough(s.memory, 8, 5);
        lemma_enough(s.memory, 11, 2);
    }
    let r = init_gc_metatable(state, FAILURE_KEY, Some(TostringField));
    proof {
        if grants(s.memory, 13) {
            assert(state@ =~= s.after(13).with_heap(
                with_type(s.heap, FAILURE_KEY, t, failure_metatable()),
            ));
        } else {
            assert(state@ =~= failure_partial(s));
        }
    }
    r
}

/// What is left where the memory does not suffice for the metatable of texts.
pub open spec fn text_partial<O>(s: State<O>) -> State<O> {
    if !grants(s.memory, 8) {
        gc_partial(s, TEXT_KEY)
    } else {
        gc_prepared(s, TEXT_KEY).starved().pop(1)
    }
}

/// Registers the metatable of texts.
fn init_text_metatable<L: Lua>(state: &mut L) -> (r: Result<(), Failure>)
    requires
        old(state)@.wf(),
        old(state)@.spare() >= 6,
        old(state)@.heap.cached.len() < old(state)@.env.cache_capacity,
    ensures
        ({
            let s = old(state)@;
            if grants(s.memory, 10) {
                &&& r is Ok
                &&& final(state)@ == s.after(10).with_heap(
                    with_type(s.heap, TEXT_KEY, s.memory[1]->0, gc_metatable(TEXT_KEY)),
                )
            } else {
                starves(r) && final(state)@ == text_partial(s)
            }
        }),
        final(state)@.wf(),
{
    let ghost s = state@;
    let ghost t = s.memory[1]->0;
    proof {
        if grants(s.memory, 8) {
            lemma_gc_prepared(s, TEXT_KEY);
            lemma_requests(s.memory, 8, 2);
        }
        lemma_enough(s.memory, 8, 2);
    }
    let r = init_gc_metatable(state, TEXT_KEY, None::<Plain>);
    proof {
        if grants(s.memory, 10) {
            assert(state@ =~= s.after(10).with_heap(
                with_type(s.heap, TEXT_KEY, t, gc_metatable(TEXT_KEY)),
            ));
        } else {
            assert(state@ =~= text_partial(s));
        }
    }
    r
}

/// The heap with the table `m` at `d`, registered as the metatable of destructed userdata.
pub open spec fn with_destructed<O>(h: Heap<O>, d: u64, m: TableModel) -> Heap<O> {
    (Heap { tables: h.tables.insert(d, m), ..h }).register(
        Pointer::DestructedMetatable,
        Value::Table(d),
    )
}

/// What is left where the memory does not suffice to make that table and to register it.
pub open spec fn unregistered_partial<O>(s: State<O>) -> State<O> {
    let d = s.memory[1]->0;
    if !grants(s.memory, 2 + 3 * metamethods(s.env.version).len()) {
        destructed_partial(s)
    } else {
        s.starved().with_heap(
            Heap {
                tables: s.heap.tables.insert(d, destructed_metatable(s.env.version)),
                ..s.heap
            },
        )
    }
}

/// Registers the metatable of destructed userdata.
fn init_destructed_metatable<L: Lua>(state: &mut L) -> (r: Result<(), Failure>)
    requires
        old(state)@.wf(),
        old(state)@.spare() >= 7,
    ensures
        ({
            let s = old(state)@;
            let n = 4 + 3 * metamethods(s.env.version).len();
            if grants(s.memory, n) {
                &&& r is Ok
                &&& final(state)@ == s.after(n).with_heap(
                    with_destructed(
                        s.heap,
                        s.memory[1]->0,
                        destructed_metatable(s.env.version),
                    ),
                )
            } else {
                starves(r) && final(state)@ == unregistered_partial(s)
            }
        }),
        final(state)@.wf(),
{
    let ghost s = state@;
    let ghost d = s.memory[1]->0;
    let ghost n = 2 + 3 * metamethods(s.env.version).len();
    proof {
        lemma_enough(s.memory, n, 2);
        if grants(s.memory, n) {
            lemma_requests(s.memory, n, 2);
        }
    }
    push_destructed_metatable(state)?;
    proof {
        let h = state@.heap;
        assert(s.memory[1] is Some);
        assert(s.heap.free(d));
        assert(forall|q: Pointer| #[trigger] h.registered(q) == s.heap.registered(q));
        assert forall|b: u64| #[trigger] h.userdata.contains_key(b) implies
            s.heap.userdata.contains_key(b) by {}
    }
    let registered = register(state, Pointer::DestructedMetatable);
    proof {
        if registered is Err {
            assert(state@ =~= unregistered_partial(s));
        }
    }
    registered?;
    proof {
        assert(state@ =~= s.after(n + 2).with_heap(
            with_destructed(s.heap, d, destructed_metatable(s.env.version)),
        ));
    }
    Ok(())
}

/// The heap with an empty text at `b`, registered as the error print buffer.
pub open spec fn with_buffer<O>(h: Heap<O>, b: u64) -> Heap<O> {
    gc_pushed(h, b, PayloadModel::Text(Seq::empty()), TEXT_KEY).register(
        Pointer::ErrorPrintBuffer,
        Value::Userdata(b),
    )
}

/// What is left where the memory does not suffice for that.
pub open spec fn buffer_partial<O>(s: State<O>) -> State<O> {
    if !grants(s.memory, 2) {
        s.starved()
    } else {
        s.starved().with_heap(
            gc_pushed(s.heap, s.memory[1]->0, PayloadModel::Text(Seq::empty()), TEXT_KEY),
        )
    }
}

/// Registers the error print buffer.
fn init_buffer<L: Lua>(state: &mut L) -> (r: Result<(), Failure>)
    requires
        old(state)@.wf(),
        old(state)@.spare() >= 4,
        old(state)@.heap.cached.contains(TEXT_KEY),
        old(state)@.heap.registered(Pointer::GcMetatable(TEXT_KEY)) is Table,
    ensures
        ({
            let s = old(state)@;
            if grants(s.memory, 4) {
                &&& r is Ok
                &&& final(state)@ == s.after(4).with_heap(with_buffer(s.heap, s.memory[1]->0))
            } else {
                starves(r) && final(state)@ == buffer_partial(s)
            }
        }),
        final(state)@.wf(),
{
    let ghost s = state@;
    proof {
        lemma_enough(s.memory, 2, 2);
        if grants(s.memory, 2) {
            lemma_requests(s.memory, 2, 2);
        }
    }
    push_gc_userdata(state, Payload::Text(String::new()), TEXT_KEY)?;
    let registered = register(state, Pointer::ErrorPrintBuffer);
    proof {
        if registered is Err {
            assert(state@ =~= buffer_partial(s));
        }
    }
    registered?;
    proof {
        assert(state@ =~= s.after(4).with_heap(with_buffer(s.heap, s.memory[1]->0)));
    }
    Ok(())
}

/// The requests for memory that `init_error_registry` makes.
pub open spec fn registry_requests(version: LuaVersion) -> nat {
    31 + 3 * metamethods(version).len()
}

/// The heap with the error registry in place: the metatables of failures, of destructed
/// userdata and of texts, and the error print buffer. Their addresses are the answers in
/// `memory`.
pub open spec fn with_error_registry<O>(
    h: Heap<O>,
    memory: Seq<Option<u64>>,
    version: LuaVersion,
) -> Heap<O> {
    let n = 3 * metamethods(version).len();
    let h1 = with_type(h, FAILURE_KEY, memory[1]->0, failure_metatable());
    let h2 = with_destructed(h1, memory[14]->0, destructed_metatable(version));
    let h3 = with_type(h2, TEXT_KEY, memory[(18 + n) as int]->0, gc_metatable(TEXT_KEY));
    with_buffer(h3, memory[(28 + n) as int]->0)
}

/// What `init_error_registry` leaves where the memory does not suffice: everything up to the step
/// that failed, and what that step left.
pub open spec fn registry_partial<O>(s: State<O>) -> State<O> {
    let n = 3 * metamethods(s.env.version).len();
    let m = s.memory;
    let s1 = s.after(13).with_heap(
        with_type(s.heap, FAILURE_KEY, m[1]->0, failure_metatable()),
    );
    let s2 = s.after(17 + n).with_heap(
        with_destructed(s1.heap, m[14]->0, destructed_metatable(s.env.version)),
    );
    let s3 = s.after(27 + n).with_heap(
        with_type(s2.heap, TEXT_KEY, m[(18 + n) as int]->0, gc_metatable(TEXT_KEY)),
    );
    if !grants(m, 13) {
        failure_partial(s)
    } else if !grants(m, 17 + n) {
        unregistered_partial(s1)
    } else if !grants(m, 27 + n) {
        text_partial(s2)
    } else {
        buffer_partial(s3)
    }
}

/// Registers the metatables of failures and of destructed userdata, and the error print buffer.
///
/// Makes room on the stack itself, for the seven slots that it uses.
pub fn init_error_registry<L: Lua>(state: &mut L) -> (r: Result<(), Failure>)
    requires
        old(state)@.wf(),
        old(state)@.grows(7) ==> {
            &&& old(state)@.heap.cached.len() < old(state)@.env.cache_capacity
            &&& old(state)@.heap.cached.insert(FAILURE_KEY).len() < old(state)@.env.cache_capacity
        },
    ensures
        ({
            let s = old(state)@.grown(7);
            let n = registry_requests(s.env.version);
            if !old(state)@.grows(7) {
                &&& r matches Err(e) && e@ == Failed::Error(ErrorModel::StackError)
                &&& final(state)@ == s
            } else if grants(s.memory, n) {
                &&& r is Ok
                &&& final(state)@ == s.after(n).with_heap(
                    with_error_registry(s.heap, s.memory, s.env.version),
                )
            } else {
                starves(r) && final(state)@ == registry_partial(s)
            }
        }),
        r is Ok ==> final(state)@.ready(),
        final(state)@.wf(),
{
    match check_stack(state, 7) {
        Ok(_) => {},
        Err(e) => {
            return Err(Failure::Error(e));
        },
    }
    let ghost s = state@;
    let ghost n = 3 * metamethods(s.env.version).len();
    proof {
        lemma_enough(s.memory, 13, 18 + n);
        lemma_enough(s.memory, 17 + n, 14);
        lemma_enough(s.memory, 27 + n, 4);
    }

    init_failure_metatable(state)?;
    proof {
        lemma_requests(s.memory, 13, 4 + n);
        let t = s.memory[1]->0;
        assert(s.memory[1] is Some);
        assert(s.heap.free(t));
    }
    init_destructed_metatable(state)?;
    proof {
        lemma_requests(s.memory, 17 + n, 10);
    }
    init_text_metatable(state)?;
    proof {
        lemma_requests(s.memory, 27 + n, 4);
    }
    init_buffer(state)?;
    proof {
        assert(state@ =~= s.after(registry_requests(s.env.version)).with_heap(
            with_error_registry(s.heap, s.memory, s.env.version),
        ));
    }
    Ok(())
}

} // verus!

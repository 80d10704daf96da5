//! Lua values that a host can hold, and lists that file things under them.

use vstd::prelude::*;

use crate::state::c_string;
use crate::value::CFunction;
use crate::value::LuaType;
use crate::value::Pointer;
use crate::value::Value;

verus! {

/// A Lua value.
#[derive(Debug)]
pub enum Slot {
    Nil,
    Boolean(bool),
    LightUserdata(Pointer),
    Integer(i64),
    Number { text: String, whole: Option<i64> },
    Str(Vec<u8>),
    Table(u64),
    CFunction(CFunction),
    Closure(u64),
    Userdata(u64),
    Thread(u64),
    Other(u64),
}

/// The same bytes.
pub fn copy_bytes(s: &[u8]) -> (r: Vec<u8>)
    ensures
        r@ == s@,
{
    let mut r: Vec<u8> = Vec::new();
    let mut i: usize = 0;
    while i < s.len()
        invariant
            i <= s.len(),
            r@ == s@.take(i as int),
        decreases s.len() - i,
    {
        r.push(s[i]);
        i = i + 1;
        assert(s@.take(i as int) =~= s@.take(i - 1).push(s[i - 1]));
    }
    assert(s@.take(i as int) =~= s@);
    r
}

/// The part of `s` before position `n` holds no zero byte, and there is one at `n`, or the end.
proof fn lemma_c_string(s: Seq<u8>, n: int)
    requires
        0 <= n <= s.len(),
        forall|i: int| 0 <= i < n ==> s[i] != 0,
        n < s.len() ==> s[n] == 0,
    ensures
        c_string(s) == s.take(n),
    decreases n,
{
    if n > 0 {
        lemma_c_string(s.drop_first(), n - 1);
        assert(s.take(n) =~= seq![s[0]] + s.drop_first().take(n - 1));
    } else {
        assert(s.take(0) =~= Seq::empty());
    }
}

/// The bytes of `s` up to the first zero byte.
pub fn copy_c_string(s: &[u8]) -> (r: Vec<u8>)
    ensures
        r@ == c_string(s@),
{
    let mut r: Vec<u8> = Vec::new();
    let mut i: usize = 0;
    while i < s.len() && s[i] != 0
        invariant
            i <= s.len(),
            r@ == s@.take(i as int),
            forall|j: int| 0 <= j < i ==> s@[j] != 0,
        decreases s.len() - i,
    {
        r.push(s[i]);
        i = i + 1;
        assert(s@.take(i as int) =~= s@.take(i - 1).push(s[i - 1]));
    }
    proof {
        lemma_c_string(s@, i as int);
    }
    r
}

/// The bytes of `s` followed by those of `t`.
pub fn join_bytes(s: &[u8], t: &[u8]) -> (r: Vec<u8>)
    ensures
        r@ == s@ + t@,
{
    let mut r = copy_bytes(s);
    let mut rest = copy_bytes(t);
    r.append(&mut rest);
    r
}

fn same_bytes(s: &Vec<u8>, t: &Vec<u8>) -> (r: bool)
    ensures
        r == (s@ == t@),
{
    if s.len() != t.len() {
        return false;
    }
    let mut i: usize = 0;
    while i < s.len()
        invariant
            i <= s.len(),
            s.len() == t.len(),
            forall|j: int| 0 <= j < i ==> s@[j] == t@[j],
        decreases s.len() - i,
    {
        if s[i] != t[i] {
            return false;
        }
        i = i + 1;
    }
    assert(s@ =~= t@);
    true
}

impl Slot {
    pub open spec fn view(&self) -> Value {
        match *self {
            Slot::Nil => Value::Nil,
            Slot::Boolean(b) => Value::Boolean(b),
            Slot::LightUserdata(p) => Value::LightUserdata(p),
            Slot::Integer(i) => Value::Integer(i),
            Slot::Number { text, whole } => Value::Number { text: text@, whole },
            Slot::Str(s) => Value::Str(s@),
            Slot::Table(a) => Value::Table(a),
            Slot::CFunction(f) => Value::CFunction(f),
            Slot::Closure(a) => Value::Closure(a),
            Slot::Userdata(a) => Value::Userdata(a),
            Slot::Thread(a) => Value::Thread(a),
            Slot::Other(a) => Value::Other(a),
        }
    }

    /// The type tag of the value.
    pub fn tag(&self) -> (t: LuaType)
        ensures
            t == self@.tag(),
    {
        match self {
            Slot::Nil => LuaType::Nil,
            Slot::Boolean(_) => LuaType::Boolean,
            Slot::LightUserdata(_) => LuaType::LightUserdata,
            Slot::Integer(_) => LuaType::Number,
            Slot::Number { .. } => LuaType::Number,
            Slot::Str(_) => LuaType::Str,
            Slot::Table(_) => LuaType::Table,
            Slot::CFunction(_) => LuaType::Function,
            Slot::Closure(_) => LuaType::Function,
            Slot::Userdata(_) => LuaType::Userdata,
            Slot::Thread(_) => LuaType::Thread,
            Slot::Other(_) => LuaType::Other,
        }
    }

    /// Neither nil nor false.
    pub fn truthy(&self) -> (b: bool)
        ensures
            b == self@.truthy(),
    {
        match self {
            Slot::Nil => false,
            Slot::Boolean(b) => *b,
            _ => true,
        }
    }

    pub fn is_nil(&self) -> (b: bool)
        ensures
            b == (self@ is Nil),
    {
        match self {
            Slot::Nil => true,
            _ => false,
        }
    }

    /// Not equal to itself.
    pub fn is_nan(&self) -> (b: bool)
        ensures
            b == self@.is_nan(),
    {
        match self {
            Slot::Number { text, .. } => *text == "NaN".to_owned(),
            _ => false,
        }
    }

    /// A table can be indexed by the value on assignment.
    pub fn is_key(&self) -> (b: bool)
        ensures
            b == self@.is_key(),
    {
        !self.is_nil() && !self.is_nan()
    }

    /// The key under which a table files the value.
    pub fn key(&self) -> (k: Slot)
        ensures
            k@ == self@.key(),
    {
        match self {
            Slot::Number { whole: Some(i), .. } => Slot::Integer(*i),
            _ => self.clone(),
        }
    }
}

impl Clone for Slot {
    fn clone(&self) -> (r: Self)
        ensures
            r@ == self@,
    {
        match self {
            Slot::Nil => Slot::Nil,
            Slot::Boolean(b) => Slot::Boolean(*b),
            Slot::LightUserdata(p) => Slot::LightUserdata(*p),
            Slot::Integer(i) => Slot::Integer(*i),
            Slot::Number { text, whole } => Slot::Number { text: text.clone(), whole: *whole },
            Slot::Str(s) => Slot::Str(copy_bytes(s.as_slice())),
            Slot::Table(a) => Slot::Table(*a),
            Slot::CFunction(f) => Slot::CFunction(*f),
            Slot::Closure(a) => Slot::Closure(*a),
            Slot::Userdata(a) => Slot::Userdata(*a),
            Slot::Thread(a) => Slot::Thread(*a),
            Slot::Other(a) => Slot::Other(*a),
        }
    }
}

impl PartialEq for Slot {
    fn eq(&self, other: &Self) -> (r: bool) {
        match (self, other) {
            (Slot::Nil, Slot::Nil) => true,
            (Slot::Boolean(a), Slot::Boolean(b)) => *a == *b,
            (Slot::LightUserdata(a), Slot::LightUserdata(b)) => *a == *b,
            (Slot::Integer(a), Slot::Integer(b)) => *a == *b,
            (
                Slot::Number { text: a, whole: v },
                Slot::Number { text: b, whole: w },
            ) => *a == *b && match (v, w) {
                (Some(i), Some(j)) => *i == *j,
                (None, None) => true,
                _ => false,
            },
            (Slot::Str(a), Slot::Str(b)) => same_bytes(a, b),
            (Slot::Table(a), Slot::Table(b)) => *a == *b,
            (Slot::CFunction(a), Slot::CFunction(b)) => *a == *b,
            (Slot::Closure(a), Slot::Closure(b)) => *a == *b,
            (Slot::Userdata(a), Slot::Userdata(b)) => *a == *b,
            (Slot::Thread(a), Slot::Thread(b)) => *a == *b,
            (Slot::Other(a), Slot::Other(b)) => *a == *b,
            _ => false,
        }
    }
}

impl vstd::std_specs::cmp::PartialEqSpecImpl for Slot {
    open spec fn obeys_eq_spec() -> bool {
        true
    }

    open spec fn eq_spec(&self, other: &Self) -> bool {
        self@ == other@
    }
}

/// The values of a run of slots.
pub open spec fn values(s: Seq<Slot>) -> Seq<Value> {
    Seq::new(s.len(), |i: int| s[i]@)
}

/// A list of things filed under Lua values; what was filed last under a value counts.
#[derive(Debug)]
#[verifier::reject_recursive_types(V)]
pub struct Assoc<V> {
    log: Vec<(Slot, V)>,
}

/// What a list holds under each value.
spec fn assoc<V>(log: Seq<(Slot, V)>) -> Map<Value, V>
    decreases log.len(),
{
    if log.len() == 0 {
        Map::empty()
    } else {
        assoc(log.drop_last()).insert(log.last().0@, log.last().1)
    }
}

impl<V> Assoc<V> {
    pub closed spec fn view(&self) -> Map<Value, V> {
        assoc(self.log@)
    }

    pub fn new() -> (r: Assoc<V>)
        ensures
            r@ == Map::<Value, V>::empty(),
    {
        Assoc { log: Vec::new() }
    }

    /// Files `v` under `k`.
    pub fn put(&mut self, k: Slot, v: V)
        ensures
            final(self)@ == old(self)@.insert(k@, v),
    {
        let ghost l = self.log@;
        self.log.push((k, v));
        assert(self.log@.drop_last() =~= l);
    }

    /// What is filed under `k`.
    pub fn get(&self, k: &Slot) -> (r: Option<&V>)
        ensures
            match r {
                Some(v) => self@.contains_key(k@) && *v == self@[k@],
                None => !self@.contains_key(k@),
            },
    {
        let mut n: usize = self.log.len();
        assert(self.log@.take(n as int) =~= self.log@);
        while n > 0
            invariant
                n <= self.log.len(),
                assoc(self.log@.take(n as int)).contains_key(k@) == self@.contains_key(k@),
                self@.contains_key(k@) ==> assoc(self.log@.take(n as int))[k@] == self@[k@],
            decreases n,
        {
            let ghost l = self.log@.take(n as int);
            n = n - 1;
            assert(l.drop_last() =~= self.log@.take(n as int));
            if self.log[n].0 == *k {
                return Some(&self.log[n].1);
            }
        }
        None
    }
}

} // verus!

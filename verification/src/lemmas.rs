//! What keeps states well formed.

use vstd::prelude::*;

use crate::state::granted;
use crate::state::grants;
use crate::state::own;
use crate::state::starved;
use crate::state::ClosureModel;
use crate::state::Heap;
use crate::state::TableModel;
use crate::state::UserdataModel;
use crate::value::LuaType;
use crate::value::PayloadModel;
use crate::value::Pointer;
use crate::value::Value;
use crate::value::FAILURE_KEY;

verus! {

/// A block keeps the heap well formed when a failure in it is overwritten by a failure only, or
/// when it carries no failure metatable.
pub proof fn lemma_payload_wf<O>(h: Heap<O>, a: u64, p: PayloadModel<O>)
    requires
        h.wf(),
        h.userdata.contains_key(a),
        h.gc_userdata(Value::Userdata(a), FAILURE_KEY) is Some ==> p is Failure,
    ensures
        h.with_payload(a, p).wf(),
{
    let g = h.with_payload(a, p);
    assert(forall|q: Pointer| #[trigger] g.registered(q) == h.registered(q));
    assert forall|b: u64| #[trigger] g.userdata.contains_key(b) implies h.userdata.contains_key(
        b,
    ) && g.userdata[b].metatable == h.userdata[b].metatable && (b != a ==> g.userdata[b]
        == h.userdata[b]) by {}
}

/// Another metatable on a block, which for the failure metatable holds a failure.
pub proof fn lemma_metatable_wf<O>(h: Heap<O>, a: u64, m: Option<u64>)
    requires
        h.wf(),
        h.userdata.contains_key(a),
        m matches Some(t) ==> {
            &&& h.tables.contains_key(t)
            &&& h.registered(Pointer::GcMetatable(FAILURE_KEY)) == Value::Table(t)
                ==> h.userdata[a].payload is Failure
        },
    ensures
        h.with_metatable(Value::Userdata(a), m).wf(),
{
    let g = h.with_metatable(Value::Userdata(a), m);
    assert(forall|q: Pointer| #[trigger] g.registered(q) == h.registered(q));
    assert forall|b: u64| #[trigger] g.userdata.contains_key(b) implies h.userdata.contains_key(
        b,
    ) && (b != a ==> g.userdata[b] == h.userdata[b]) by {}
}

/// A new block.
pub proof fn lemma_userdata_wf<O>(h: Heap<O>, a: u64, p: PayloadModel<O>)
    requires
        h.wf(),
    ensures
        (Heap {
            userdata: h.userdata.insert(a, UserdataModel { payload: p, metatable: None }),
            ..h
        }).wf(),
{
    let g = Heap {
        userdata: h.userdata.insert(a, UserdataModel { payload: p, metatable: None }),
        ..h
    };
    assert(forall|q: Pointer| #[trigger] g.registered(q) == h.registered(q));
    assert forall|b: u64| #[trigger] g.userdata.contains_key(b) && b != a implies
        h.userdata.contains_key(b) && g.userdata[b] == h.userdata[b] by {}
}

/// A new table.
pub proof fn lemma_table_wf<O>(h: Heap<O>, a: u64)
    requires
        h.wf(),
        h.free(a),
    ensures
        (Heap { tables: h.tables.insert(a, TableModel::empty()), ..h }).wf(),
{
    let g = Heap { tables: h.tables.insert(a, TableModel::empty()), ..h };
    assert(forall|q: Pointer| #[trigger] g.registered(q) == h.registered(q));
    assert forall|b: u64| #[trigger] g.userdata.contains_key(b) implies h.userdata.contains_key(
        b,
    ) by {}
}

/// A new closure.
pub proof fn lemma_closure_wf<O>(h: Heap<O>, a: u64, c: ClosureModel)
    requires
        h.wf(),
    ensures
        (Heap { closures: h.closures.insert(a, c), ..h }).wf(),
{
    let g = Heap { closures: h.closures.insert(a, c), ..h };
    assert(forall|q: Pointer| #[trigger] g.registered(q) == h.registered(q));
    assert forall|b: u64| #[trigger] g.userdata.contains_key(b) implies h.userdata.contains_key(
        b,
    ) by {}
}

/// An entry of a table, other than one under an address.
pub proof fn lemma_set_wf<O>(h: Heap<O>, t: u64, k: Value, v: Value)
    requires
        h.wf(),
        h.tables.contains_key(t),
        !(k is LightUserdata) || t != h.registry,
    ensures
        h.set(t, k, v).wf(),
        forall|p: Pointer| h.set(t, k, v).registered(p) == h.registered(p),
{
    let g = h.set(t, k, v);
    assert forall|p: Pointer| g.registered(p) == h.registered(p) by {
        assert(k is LightUserdata || k.key() != Value::LightUserdata(p));
    }
    assert forall|b: u64| #[trigger] g.userdata.contains_key(b) implies h.userdata.contains_key(
        b,
    ) by {}
    assert(g.tables.contains_key(g.registry));
}

/// Another value of the registry: for this library's metatables one that nothing uses yet.
pub proof fn lemma_register_wf<O>(h: Heap<O>, p: Pointer, v: Value)
    requires
        h.wf(),
        v is Table ==> h.tables.contains_key(v->Table_0),
        own(p) && v is Table ==> {
            &&& forall|q: Pointer| own(q) ==> #[trigger] h.registered(q) != v
            &&& forall|b: u64| #[trigger]
                h.userdata.contains_key(b) ==> h.userdata[b].metatable != Some(v->Table_0)
            &&& forall|b: LuaType| #[trigger] h.basic.contains_key(b) ==> h.basic[b] != v->Table_0
        },
    ensures
        h.register(p, v).wf(),
        h.register(p, v).registered(p) == v,
        forall|q: Pointer| q != p ==> h.register(p, v).registered(q) == h.registered(q),
{
    let g = h.register(p, v);
    assert forall|q: Pointer| q != p implies g.registered(q) == h.registered(q) by {
        assert(Value::LightUserdata(q).key() != Value::LightUserdata(p).key());
    }
    assert(g.registered(p) == v);
    assert forall|b: u64| #[trigger] g.userdata.contains_key(b) implies h.userdata.contains_key(
        b,
    ) by {}
    assert forall|q: Pointer| #[trigger] g.registered(q) is Table implies g.tables.contains_key(
        g.registered(q)->Table_0,
    ) by {
        if q != p {
            assert(h.registered(q) is Table);
        }
    }
}

/// Requests made one after the other, and requests made together.
pub proof fn lemma_requests(m: Seq<Option<u64>>, k: nat, j: nat)
    requires
        grants(m, k),
    ensures
        grants(m, k + j) <==> grants(m.skip(k as int), j),
        m.skip(k as int).len() == m.len() - k,
        m.skip(k as int).len() >= j ==> m.skip(k as int).skip(j as int) == m.skip((k + j) as int),
        forall|i: int| 0 <= i < m.len() - k ==> #[trigger] m.skip(k as int)[i] == m[k + i],
        starved(m) == starved(m.skip(k as int)),
    decreases k,
{
    let s = m.skip(k as int);
    if grants(m, k + j) {
        assert forall|i: int| 0 <= i < j implies #[trigger] s[i] is Some by {
            assert(m[k + i] is Some);
        }
    }
    if grants(s, j) {
        assert forall|i: int| 0 <= i < k + j implies #[trigger] m[i] is Some by {
            if i >= k {
                assert(s[i - k] is Some);
            }
        }
    }
    if s.len() >= j {
        assert(s.skip(j as int) =~= m.skip((k + j) as int));
    }
    if k == 0 {
        assert(s =~= m);
    } else {
        assert(m[0] is Some);
        let d = m.drop_first();
        assert forall|i: int| 0 <= i < k - 1 implies #[trigger] d[i] is Some by {
            assert(m[i + 1] is Some);
        }
        lemma_requests(d, (k - 1) as nat, 0);
        assert(d.skip(k - 1) =~= s);
    }
}

/// The first `n` requests are granted if and only if there are `n` before the first refusal.
pub proof fn lemma_granted(m: Seq<Option<u64>>, n: nat)
    ensures
        grants(m, n) <==> n <= granted(m),
    decreases m.len(),
{
    if n > 0 && m.len() > 0 && m[0] is Some {
        let d = m.drop_first();
        lemma_granted(d, (n - 1) as nat);
        if grants(m, n) {
            assert forall|i: int| 0 <= i < n - 1 implies #[trigger] d[i] is Some by {
                assert(m[i + 1] is Some);
            }
        }
        if grants(d, (n - 1) as nat) {
            assert forall|i: int| 0 <= i < n implies #[trigger] m[i] is Some by {
                if i > 0 {
                    assert(d[i - 1] is Some);
                }
            }
        }
    }
}

} // verus!

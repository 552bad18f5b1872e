//! The conversion and ownership laws of the layer, proved over the same
//! specifications the executable contracts use.

use crate::context::{invoked_outcome, OwnedValueRef};
use crate::engine::{lemma_released_empty, released, rolled_back};
use crate::raw::{
    decode, decode_list, encode, encode_list, encode_props, lemma_encode_list, lemma_encode_props,
    raw_lookup, raw_prop_views_of, RawVal, RawValue,
};
use crate::value::{seq_nul_free, val_nul_free, ExecutionError, JsVal, JsValue, ValueError};
use vstd::prelude::*;

verus! {

/// A value the conversion round-trips: a primitive, a NUL-free string, or
/// an array of such values. Objects read back member by member instead
/// (see [`lemma_object_round_trip`]).
pub open spec fn round_trippable(v: JsVal) -> bool
    decreases v, 0int,
{
    match v {
        JsVal::Obj(_) => false,
        JsVal::Str(s) => seq_nul_free(s),
        JsVal::Arr(vs) => rt_list(vs),
        _ => true,
    }
}

/// Every element of the sequence is round-trippable.
pub open spec fn rt_list(vs: Seq<JsVal>) -> bool
    decreases vs, 1int,
{
    vs.len() == 0 || (rt_list(vs.drop_last()) && round_trippable(vs.last()))
}

/// Pointwise reading of [`rt_list`].
pub proof fn lemma_rt_list(vs: Seq<JsVal>)
    ensures
        rt_list(vs) == (forall|i: int| 0 <= i < vs.len() ==> #[trigger] round_trippable(vs[i])),
    decreases vs.len(),
{
    if vs.len() > 0 {
        lemma_rt_list(vs.drop_last());
        if rt_list(vs) {
            assert forall|i: int| 0 <= i < vs.len() implies #[trigger] round_trippable(
                vs[i],
            ) by {
                if i < vs.len() - 1 {
                    assert(vs.drop_last()[i] == vs[i]);
                    assert(round_trippable(vs.drop_last()[i]));
                } else {
                    assert(vs[i] == vs.last());
                }
            }
        }
        if forall|i: int| 0 <= i < vs.len() ==> #[trigger] round_trippable(vs[i]) {
            assert forall|i: int|
                0 <= i < vs.drop_last().len() implies #[trigger] round_trippable(
                vs.drop_last()[i],
            ) by {
                assert(vs.drop_last()[i] == vs[i]);
                assert(round_trippable(vs[i]));
            }
            assert(vs.last() == vs[vs.len() - 1]);
            assert(round_trippable(vs[vs.len() - 1]));
            assert(rt_list(vs));
        }
    }
}

/// Round trip: decoding the encoding of any round-trippable host value —
/// every primitive, every NUL-free string, and every array of such values
/// — yields the value back. In particular an array keeps its length and
/// the order of its elements.
pub proof fn lemma_round_trip(v: JsVal)
    requires
        round_trippable(v),
    ensures
        decode(encode(v)) == Ok::<JsVal, Seq<char>>(v),
    decreases v, 0int,
{
    match v {
        JsVal::Arr(vs) => {
            lemma_round_trip_list(vs);
        }
        _ => {}
    }
}

/// Round trip of a sequence of round-trippable values, elementwise and in
/// order.
pub proof fn lemma_round_trip_list(vs: Seq<JsVal>)
    requires
        rt_list(vs),
    ensures
        decode_list(encode_list(vs)) == Ok::<Seq<JsVal>, Seq<char>>(vs),
    decreases vs, 1int,
{
    if vs.len() > 0 {
        let es = encode_list(vs);
        let tail = vs.drop_first();
        lemma_encode_list(vs);
        lemma_encode_list(tail);
        lemma_rt_list(vs);
        assert(round_trippable(vs[0]));
        lemma_round_trip(vs[0]);
        assert(es.first() == encode(vs[0]));
        lemma_rt_list(tail);
        assert forall|i: int| 0 <= i < tail.len() implies #[trigger] round_trippable(
            tail[i],
        ) by {
            assert(tail[i] == vs[i + 1]);
            assert(round_trippable(vs[i + 1]));
        }
        lemma_round_trip_list(tail);
        assert(es.drop_first() =~= encode_list(tail));
        assert(seq![vs[0]] + tail =~= vs);
    } else {
        assert(vs =~= Seq::<JsVal>::empty());
        assert(encode_list(vs) =~= Seq::<RawVal>::empty());
    }
}

/// Member lookup in an encoded object: the value of a name in a property
/// table, the last binding of the name winning.
pub open spec fn obj_lookup(ps: Seq<(Seq<char>, RawVal)>, name: Seq<char>) -> Option<RawVal>
    decreases ps.len(),
{
    if ps.len() == 0 {
        None
    } else if ps.last().0 == name {
        Some(ps.last().1)
    } else {
        obj_lookup(ps.drop_last(), name)
    }
}

/// Reading an engine property table through its model: what the engine's
/// lookup hands out models what the model-level lookup yields.
pub proof fn lemma_raw_lookup_view(ps: Seq<(String, RawValue)>, name: Seq<char>)
    ensures
        match raw_lookup(ps, name) {
            Some(v) => obj_lookup(raw_prop_views_of(ps), name) == Some(v.view()),
            None => obj_lookup(raw_prop_views_of(ps), name) is None,
        },
    decreases ps.len(),
{
    if ps.len() > 0 {
        assert(raw_prop_views_of(ps).last() == (ps.last().0@, ps.last().1.view()));
        assert(raw_prop_views_of(ps).drop_last() =~= raw_prop_views_of(ps.drop_last()));
        if ps.last().0@ != name {
            lemma_raw_lookup_view(ps.drop_last(), name);
        }
    }
}

/// In the encoding of an object with pairwise distinct keys, looking any
/// key up yields the encoding of its member.
pub proof fn lemma_object_lookup(ps: Seq<(Seq<char>, JsVal)>, k: int)
    requires
        0 <= k < ps.len(),
        forall|i: int, j: int| 0 <= i < j < ps.len() ==> (#[trigger] ps[i].0) != (#[trigger] ps[j].0),
    ensures
        obj_lookup(encode_props(ps), ps[k].0) == Some(encode(ps[k].1)),
    decreases ps.len(),
{
    lemma_encode_props(ps);
    let es = encode_props(ps);
    assert(es.last() == (ps[ps.len() - 1].0, encode(ps[ps.len() - 1].1)));
    if k == ps.len() - 1 {
    } else {
        assert(ps[k].0 != ps[ps.len() - 1].0);
        lemma_encode_props(ps.drop_last());
        assert(es.drop_last() =~= encode_props(ps.drop_last()));
        assert(ps.drop_last()[k] == ps[k]);
        lemma_object_lookup(ps.drop_last(), k);
    }
}

/// Object round trip: for a mapping with pairwise distinct keys and
/// round-trippable members, converting to an engine object and reading any
/// key back yields the original member. The order of the keys is not
/// asserted on read.
pub proof fn lemma_object_round_trip(ps: Seq<(Seq<char>, JsVal)>, k: int)
    requires
        0 <= k < ps.len(),
        forall|i: int, j: int| 0 <= i < j < ps.len() ==> (#[trigger] ps[i].0) != (#[trigger] ps[j].0),
        forall|i: int| 0 <= i < ps.len() ==> round_trippable((#[trigger] ps[i]).1),
    ensures
        obj_lookup(encode_props(ps), ps[k].0) == Some(encode(ps[k].1)),
        decode(encode(ps[k].1)) == Ok::<JsVal, Seq<char>>(ps[k].1),
{
    lemma_object_lookup(ps, k);
    lemma_round_trip(ps[k].1);
}

/// Every failure of a native-function dispatch is script-visible as a
/// thrown exception carrying the failure's message — never a crash: a
/// value return is the only signaling channel across the engine boundary.
/// Failures here are an infrastructure error, a business-logic or
/// arity-mismatch message, or a result that cannot be serialized back.
pub proof fn lemma_dispatch_failure_is_thrown(
    inner: Result<Result<JsValue, String>, ValueError>,
    res: Result<OwnedValueRef, ExecutionError>,
    rc_pre: Seq<u64>,
    rc_post: Seq<u64>,
)
    requires
        invoked_outcome(inner, res, rc_pre, rc_post),
        !(inner matches Ok(i2) && i2 matches Ok(v) && val_nul_free(v.view())),
    ensures
        res matches Err(e) && (e matches ExecutionError::Exception(v) && v.view() is Str),
{
}

/// The number of live heap cells: those whose refcount has not reached
/// zero.
pub open spec fn live_count(rc: Seq<u64>) -> nat
    decreases rc.len(),
{
    if rc.len() == 0 {
        0
    } else {
        live_count(rc.drop_last()) + (if rc.last() > 0 {
            1nat
        } else {
            0nat
        })
    }
}

/// No leak on failure: a rolled-back heap — the state every failing
/// serialization leaves behind — has exactly the live allocations it
/// started with, so repeated failing calls cannot grow the engine's
/// live-allocation count.
pub proof fn lemma_rolled_back_preserves_live_count(pre: Seq<u64>, post: Seq<u64>)
    requires
        rolled_back(pre, post),
    ensures
        live_count(post) == live_count(pre),
    decreases post.len(),
{
    if post.len() > pre.len() {
        assert(post.last() == 0u64);
        assert(rolled_back(pre, post.drop_last()));
        lemma_rolled_back_preserves_live_count(pre, post.drop_last());
    } else {
        assert(post =~= pre);
    }
}

/// Exactly-once release: a released or consumed handle holds the inert
/// null value, which owns no heap cells, so a further release of it frees
/// nothing — no cell is ever released twice through a handle.
pub proof fn lemma_release_after_disarm(rc: Seq<u64>)
    ensures
        released(rc, RawValue::Null.id_set()) == rc,
{
    assert(RawValue::Null.id_set() =~= Set::empty());
    lemma_released_empty(rc);
}

} // verus!


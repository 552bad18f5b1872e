//! The modeled engine: a refcount table over heap cells, a staged
//! evaluation outcome and a pending exception slot.
//!
//! Every string, array, object or native-function value the engine hands
//! out occupies one cell per node, tracked in [`Engine::rc`]. A cell with a
//! count of zero is freed. The model gives each allocation to exactly one
//! owner, so releasing a value drops each of its cells to zero.

use crate::raw::{
    encode, encode_list, encode_props, ids_of_list, ids_of_props, lemma_encode_list,
    lemma_encode_props, lemma_ids_of_list_push, lemma_ids_of_props_push, lemma_raw_prop_views_of,
    lemma_raw_views_of, raw_prop_views_of, raw_views_of, RawVal, RawValue,
};
use crate::value::{
    lemma_list_nul_free, lemma_prop_views_of, lemma_props_nul_free, lemma_views_of,
    prop_views_of, seq_nul_free, str_is_nul_free, val_nul_free, views_of, JsVal, JsValue,
    ValueError,
};
use vstd::prelude::*;
use vstd::string::StringExecFns;

verus! {

/// The engine's heap bookkeeping and control slots.
pub struct Engine {
    /// `rc[i]` is the refcount of heap cell `i`; zero marks a freed cell.
    pub rc: Vec<u64>,
    /// The raw outcome the next evaluation will produce, staged by the
    /// caller; evaluation consumes it.
    pub staged: Option<RawValue>,
    /// The pending thrown exception, if any.
    pub pending: Option<RawValue>,
}

/// The cells of `r` are exactly the cells allocated between the states
/// `pre` and `post` of the refcount table, each with refcount one, and the
/// cells already present in `pre` are untouched: `r` exclusively owns the
/// fresh allocations.
pub open spec fn fresh_own(pre: Seq<u64>, post: Seq<u64>, r: RawValue) -> bool {
    &&& pre.len() <= post.len()
    &&& forall|i: int| 0 <= i < pre.len() ==> post[i] == pre[i]
    &&& forall|i: int| #[trigger] r.id_set().contains(i) ==> pre.len() <= i < post.len()
    &&& forall|i: int|
        pre.len() <= i < post.len() ==> #[trigger] post[i] == 1u64 && r.id_set().contains(i)
}

/// Every cell allocated between the states `pre` and `post` of the refcount
/// table has been freed again, and the cells already present in `pre` are
/// untouched: the live allocations are exactly those of `pre`.
pub open spec fn rolled_back(pre: Seq<u64>, post: Seq<u64>) -> bool {
    &&& pre.len() <= post.len()
    &&& forall|i: int| 0 <= i < pre.len() ==> post[i] == pre[i]
    &&& forall|i: int| pre.len() <= i < post.len() ==> #[trigger] post[i] == 0u64
}

/// The refcount table after the cells in `ids` have been freed.
pub open spec fn released(rc: Seq<u64>, ids: Set<int>) -> Seq<u64> {
    Seq::new(rc.len(), |i: int| if ids.contains(i) { 0u64 } else { rc[i] })
}

/// Freeing nothing changes nothing.
pub proof fn lemma_released_empty(rc: Seq<u64>)
    ensures
        released(rc, Set::empty()) == rc,
{
    assert(released(rc, Set::empty()) =~= rc);
}

/// Freeing in two steps frees the union.
pub proof fn lemma_released_union(rc: Seq<u64>, a: Set<int>, b: Set<int>)
    ensures
        released(released(rc, a), b) == released(rc, a.union(b)),
{
    assert(released(released(rc, a), b) =~= released(rc, a.union(b)));
}

impl Engine {
    /// A fresh engine with no allocations, nothing staged and no pending
    /// exception.
    pub fn new() -> (e: Engine)
        ensures
            e.rc@ == Seq::<u64>::empty(),
            e.staged is None,
            e.pending is None,
    {
        Engine { rc: Vec::new(), staged: None, pending: None }
    }

    /// Allocates a fresh heap cell with refcount one.
    pub fn alloc_cell(&mut self) -> (id: usize)
        ensures
            final(self).rc@ == old(self).rc@.push(1u64),
            id == old(self).rc@.len(),
            final(self).staged == old(self).staged,
            final(self).pending == old(self).pending,
    {
        let id = self.rc.len();
        self.rc.push(1);
        id
    }

    /// Frees one heap cell.
    fn zero_cell(&mut self, id: usize)
        ensures
            final(self).rc@ == released(old(self).rc@, Set::empty().insert(id as int)),
            final(self).staged == old(self).staged,
            final(self).pending == old(self).pending,
    {
        if id < self.rc.len() {
            self.rc[id] = 0;
        }
        proof {
            assert(self.rc@ =~= released(old(self).rc@, Set::empty().insert(id as int)));
        }
    }

    /// Releases an engine value: every heap cell it owns is freed. Values
    /// whose tag is not refcounted own no cells, so releasing them is a
    /// no-op.
    pub fn release(&mut self, r: &RawValue)
        ensures
            final(self).rc@ == released(old(self).rc@, r.id_set()),
            final(self).staged == old(self).staged,
            final(self).pending == old(self).pending,
        decreases r,
    {
        match r {
            RawValue::Str(id, _) => {
                self.zero_cell(*id);
            }
            RawValue::Func(id, _, _) => {
                self.zero_cell(*id);
            }
            RawValue::GlobalObj(id) => {
                self.zero_cell(*id);
            }
            RawValue::Arr(id, elems) => {
                proof {
                    assert(*r == RawValue::Arr(*id, *elems));
                }
                self.zero_cell(*id);
                let ghost rc0 = old(self).rc@;
                let mut j: usize = 0;
                while j < elems.len()
                    invariant
                        j <= elems.len(),
                        *r == RawValue::Arr(*id, *elems),
                        self.rc@ == released(
                            rc0,
                            ids_of_list(elems@.subrange(0, j as int)).insert(*id as int),
                        ),
                        self.staged == old(self).staged,
                        self.pending == old(self).pending,
                    decreases elems.len() - j,
                {
                    proof {
                        assert(*r == RawValue::Arr(*id, *elems));
                        assert(decreases_to!(*r => r->Arr_1));
                        assert(r->Arr_1 == *elems);
                        assert(decreases_to!(*elems => elems@));
                        assert(decreases_to!(elems@ => elems@[j as int]));
                    }
                    let ghost pre = ids_of_list(elems@.subrange(0, j as int)).insert(*id as int);
                    self.release(&elems[j]);
                    proof {
                        lemma_released_union(rc0, pre, elems@[j as int].id_set());
                        assert(elems@.subrange(0, j + 1 as int).drop_last() =~= elems@.subrange(
                            0,
                            j as int,
                        ));
                        assert(elems@.subrange(0, j + 1 as int).last() == elems@[j as int]);
                        assert(pre.union(elems@[j as int].id_set()) =~= ids_of_list(
                            elems@.subrange(0, j + 1 as int),
                        ).insert(*id as int));
                    }
                    j = j + 1;
                }
                proof {
                    assert(elems@.subrange(0, elems@.len() as int) =~= elems@);
                    assert(ids_of_list(elems@).insert(*id as int) =~= r.id_set());
                }
            }
            RawValue::Obj(id, props) => {
                proof {
                    assert(*r == RawValue::Obj(*id, *props));
                }
                self.zero_cell(*id);
                let ghost rc0 = old(self).rc@;
                let mut j: usize = 0;
                while j < props.len()
                    invariant
                        j <= props.len(),
                        *r == RawValue::Obj(*id, *props),
                        self.rc@ == released(
                            rc0,
                            ids_of_props(props@.subrange(0, j as int)).insert(*id as int),
                        ),
                        self.staged == old(self).staged,
                        self.pending == old(self).pending,
                    decreases props.len() - j,
                {
                    proof {
                        assert(*r == RawValue::Obj(*id, *props));
                        assert(decreases_to!(*r => r->Obj_1));
                        assert(r->Obj_1 == *props);
                        assert(decreases_to!(*props => props@));
                        assert(decreases_to!(props@ => props@[j as int]));
                        assert(decreases_to!(props@[j as int] => props@[j as int].1));
                    }
                    let ghost pre = ids_of_props(props@.subrange(0, j as int)).insert(*id as int);
                    self.release(&props[j].1);
                    proof {
                        lemma_released_union(rc0, pre, props@[j as int].1.id_set());
                        assert(props@.subrange(0, j + 1 as int).drop_last() =~= props@.subrange(
                            0,
                            j as int,
                        ));
                        assert(props@.subrange(0, j + 1 as int).last() == props@[j as int]);
                        assert(pre.union(props@[j as int].1.id_set()) =~= ids_of_props(
                            props@.subrange(0, j + 1 as int),
                        ).insert(*id as int));
                    }
                    j = j + 1;
                }
                proof {
                    assert(props@.subrange(0, props@.len() as int) =~= props@);
                    assert(ids_of_props(props@).insert(*id as int) =~= r.id_set());
                }
            }
            _ => {
                proof {
                    assert(r.id_set() =~= Set::empty());
                    lemma_released_empty(old(self).rc@);
                }
            }
        }
    }

    /// Serialize a host value into an engine value.
    ///
    /// Succeeds exactly when no string or key in the value holds an
    /// embedded NUL; the result then models [`encode`] of the input and
    /// exclusively owns the freshly allocated cells. On failure every cell
    /// allocated for the partially built value has been released again, so
    /// a failing call never grows the set of live allocations.
    pub fn serialize(&mut self, v: &JsValue) -> (res: Result<RawValue, ValueError>)
        ensures
            final(self).staged == old(self).staged,
            final(self).pending == old(self).pending,
            (res is Ok) == val_nul_free(v.view()),
            match res {
                Ok(r) => r.view() == encode(v.view()) && fresh_own(
                    old(self).rc@,
                    final(self).rc@,
                    r,
                ),
                Err(er) => er is StringWithZeroBytes && rolled_back(
                    old(self).rc@,
                    final(self).rc@,
                ),
            },
        decreases v,
    {
        match v {
            JsValue::Null => Ok(RawValue::Null),
            JsValue::Bool(b) => Ok(RawValue::Bool(*b)),
            JsValue::Int(i) => Ok(RawValue::Int(*i)),
            JsValue::Float(bits) => Ok(RawValue::Float(*bits)),
            JsValue::String(s) => {
                proof {
                    assert(*v == JsValue::String(*s));
                }
                if str_is_nul_free(s.as_str()) {
                    let id = self.alloc_cell();
                    let r = RawValue::Str(id, String::from_str(s.as_str()));
                    proof {
                        assert(fresh_own(old(self).rc@, self.rc@, r));
                    }
                    Ok(r)
                } else {
                    Err(ValueError::StringWithZeroBytes)
                }
            }
            JsValue::Array(items) => {
                proof {
                    assert(*v == JsValue::Array(*items));
                    lemma_views_of(items@);
                }
                let ghost pre = old(self).rc@;
                let arr_id = self.alloc_cell();
                let mut elems: Vec<RawValue> = Vec::new();
                let mut j: usize = 0;
                while j < items.len()
                    invariant
                        j <= items.len(),
                        elems@.len() == j,
                        *v == JsValue::Array(*items),
                        self.staged == old(self).staged,
                        self.pending == old(self).pending,
                        pre == old(self).rc@,
                        arr_id == pre.len(),
                        pre.len() < self.rc@.len(),
                        forall|i: int| 0 <= i < pre.len() ==> self.rc@[i] == pre[i],
                        forall|i: int|
                            pre.len() <= i < self.rc@.len() ==> #[trigger] self.rc@[i] == 1u64,
                        forall|i: int| #[trigger]
                            ids_of_list(elems@).contains(i) ==> pre.len() < i < self.rc@.len(),
                        forall|i: int|
                            pre.len() < i < self.rc@.len() ==> ids_of_list(elems@).contains(i),
                        forall|i: int|
                            0 <= i < j ==> (#[trigger] elems@[i].view()) == encode(
                                items@[i].view(),
                            ),
                        forall|i: int| 0 <= i < j ==> #[trigger] val_nul_free(items@[i].view()),
                    decreases items.len() - j,
                {
                    proof {
                        assert(decreases_to!(*v => v->Array_0));
                        assert(v->Array_0 == *items);
                        assert(decreases_to!(*items => items@));
                        assert(decreases_to!(items@ => items@[j as int]));
                    }
                    let ghost mid = self.rc@;
                    match self.serialize(&items[j]) {
                        Ok(r) => {
                            let ghost prev = elems@;
                            elems.push(r);
                            proof {
                                lemma_ids_of_list_push(prev, r);
                                assert forall|i: int|
                                    pre.len() < i < self.rc@.len() implies ids_of_list(
                                    elems@,
                                ).contains(i) by {
                                    if i < mid.len() {
                                        assert(ids_of_list(prev).contains(i));
                                    } else {
                                        assert(self.rc@[i] == 1u64);
                                        assert(r.id_set().contains(i));
                                    }
                                }
                            }
                        }
                        Err(er) => {
                            let ghost partial_ids = ids_of_list(elems@).insert(arr_id as int);
                            let partial = RawValue::Arr(arr_id, elems);
                            self.release(&partial);
                            proof {
                                assert(partial.id_set() == partial_ids);
                                assert(rolled_back(pre, self.rc@));
                                lemma_views_of(items@);
                                lemma_list_nul_free(views_of(items@));
                                assert(v.view() == JsVal::Arr(views_of(items@)));
                                assert(views_of(items@)[j as int] == items@[j as int].view());
                                assert(!val_nul_free(items@[j as int].view()));
                                assert(!val_nul_free(views_of(items@)[j as int]));
                                assert(!val_nul_free(v.view()));
                            }
                            return Err(er);
                        }
                    }
                    j = j + 1;
                }
                let r = RawValue::Arr(arr_id, elems);
                proof {
                    lemma_views_of(items@);
                    lemma_raw_views_of(elems@);
                    lemma_encode_list(views_of(items@));
                    assert(raw_views_of(elems@) =~= encode_list(views_of(items@)));
                    assert(v.view() == JsVal::Arr(views_of(items@)));
                    assert(r.view() == encode(v.view()));
                    assert forall|i: int|
                        0 <= i < views_of(items@).len() implies #[trigger] val_nul_free(
                        views_of(items@)[i],
                    ) by {
                        assert(views_of(items@)[i] == items@[i].view());
                        assert(val_nul_free(items@[i].view()));
                    }
                    lemma_list_nul_free(views_of(items@));
                    assert(val_nul_free(JsVal::Arr(views_of(items@))));
                    assert(val_nul_free(v.view()));
                    assert(r.id_set() == ids_of_list(elems@).insert(arr_id as int));
                    assert(fresh_own(pre, self.rc@, r));
                }
                Ok(r)
            }
            JsValue::Object(props) => {
                proof {
                    assert(*v == JsValue::Object(*props));
                    lemma_prop_views_of(props@);
                }
                let ghost pre = old(self).rc@;
                let obj_id = self.alloc_cell();
                let mut out: Vec<(String, RawValue)> = Vec::new();
                let mut j: usize = 0;
                while j < props.len()
                    invariant
                        j <= props.len(),
                        out@.len() == j,
                        *v == JsValue::Object(*props),
                        self.staged == old(self).staged,
                        self.pending == old(self).pending,
                        pre == old(self).rc@,
                        obj_id == pre.len(),
                        pre.len() < self.rc@.len(),
                        forall|i: int| 0 <= i < pre.len() ==> self.rc@[i] == pre[i],
                        forall|i: int|
                            pre.len() <= i < self.rc@.len() ==> #[trigger] self.rc@[i] == 1u64,
                        forall|i: int| #[trigger]
                            ids_of_props(out@).contains(i) ==> pre.len() < i < self.rc@.len(),
                        forall|i: int|
                            pre.len() < i < self.rc@.len() ==> ids_of_props(out@).contains(i),
                        forall|i: int|
                            0 <= i < j ==> (#[trigger] out@[i]).0@ == props@[i].0@
                                && out@[i].1.view() == encode(props@[i].1.view()),
                        forall|i: int|
                            0 <= i < j ==> seq_nul_free((#[trigger] props@[i]).0@)
                                && val_nul_free(props@[i].1.view()),
                    decreases props.len() - j,
                {
                    proof {
                        assert(decreases_to!(*v => v->Object_0));
                        assert(v->Object_0 == *props);
                        assert(decreases_to!(*props => props@));
                        assert(decreases_to!(props@ => props@[j as int]));
                        assert(decreases_to!(props@[j as int] => props@[j as int].1));
                    }
                    if !str_is_nul_free(props[j].0.as_str()) {
                        let ghost partial_ids = ids_of_props(out@).insert(obj_id as int);
                        let partial = RawValue::Obj(obj_id, out);
                        self.release(&partial);
                        proof {
                            assert(partial.id_set() == partial_ids);
                            assert(rolled_back(pre, self.rc@));
                            lemma_prop_views_of(props@);
                            lemma_props_nul_free(prop_views_of(props@));
                            assert(v.view() == JsVal::Obj(prop_views_of(props@)));
                            assert(prop_views_of(props@)[j as int].0 == props@[j as int].0@);
                            assert(!seq_nul_free(prop_views_of(props@)[j as int].0));
                            assert(!val_nul_free(v.view()));
                        }
                        return Err(ValueError::StringWithZeroBytes);
                    }
                    let key = String::from_str(props[j].0.as_str());
                    let ghost mid = self.rc@;
                    match self.serialize(&props[j].1) {
                        Ok(r) => {
                            let ghost prev = out@;
                            let ghost kr = (key, r);
                            out.push((key, r));
                            proof {
                                lemma_ids_of_props_push(prev, kr);
                                assert(seq_nul_free(props@[j as int].0@));
                                assert(val_nul_free(props@[j as int].1.view()));
                                assert forall|i: int|
                                    0 <= i < j + 1 implies (#[trigger] out@[i]).0@ == props@[
                                    i
                                ].0@ && out@[i].1.view() == encode(props@[i].1.view()) by {
                                    if i < j {
                                        assert(out@[i] == prev[i]);
                                        assert(prev[i].0@ == props@[i].0@ && prev[i].1.view()
                                            == encode(props@[i].1.view()));
                                    } else {
                                        assert(out@[i] == kr);
                                    }
                                }
                                assert forall|i: int|
                                    pre.len() < i < self.rc@.len() implies ids_of_props(
                                    out@,
                                ).contains(i) by {
                                    if i < mid.len() {
                                        assert(ids_of_props(prev).contains(i));
                                    } else {
                                        assert(self.rc@[i] == 1u64);
                                        assert(kr.1.id_set().contains(i));
                                    }
                                }
                            }
                        }
                        Err(er) => {
                            let ghost partial_ids = ids_of_props(out@).insert(obj_id as int);
                            let partial = RawValue::Obj(obj_id, out);
                            self.release(&partial);
                            proof {
                                assert(partial.id_set() == partial_ids);
                                assert(rolled_back(pre, self.rc@));
                                lemma_prop_views_of(props@);
                                lemma_props_nul_free(prop_views_of(props@));
                                assert(v.view() == JsVal::Obj(prop_views_of(props@)));
                                assert(prop_views_of(props@)[j as int].0 == props@[j as int].0@);
                                assert(prop_views_of(props@)[j as int].1 == props@[
                                    j as int
                                ].1.view());
                                assert(!val_nul_free(prop_views_of(props@)[j as int].1));
                                assert(!val_nul_free(v.view()));
                            }
                            return Err(er);
                        }
                    }
                    j = j + 1;
                }
                let r = RawValue::Obj(obj_id, out);
                proof {
                    lemma_prop_views_of(props@);
                    lemma_raw_prop_views_of(out@);
                    lemma_encode_props(prop_views_of(props@));
                    assert(raw_prop_views_of(out@) =~= encode_props(prop_views_of(props@)));
                    assert(v.view() == JsVal::Obj(prop_views_of(props@)));
                    assert(r.view() == encode(v.view()));
                    assert forall|i: int|
                        0 <= i < prop_views_of(props@).len() implies seq_nul_free(
                        #[trigger] prop_views_of(props@)[i].0,
                    ) && val_nul_free(prop_views_of(props@)[i].1) by {
                        assert(prop_views_of(props@)[i] == (props@[i].0@, props@[i].1.view()));
                        assert(seq_nul_free(props@[i].0@) && val_nul_free(props@[i].1.view()));
                    }
                    lemma_props_nul_free(prop_views_of(props@));
                    assert(val_nul_free(JsVal::Obj(prop_views_of(props@))));
                    assert(val_nul_free(v.view()));
                    assert(r.id_set() == ids_of_props(out@).insert(obj_id as int));
                    assert(fresh_own(pre, self.rc@, r));
                }
                Ok(r)
            }
        }
    }

    /// Duplicates an engine value into a fresh, exclusively owned copy with
    /// the same model: how the engine hands out a value it keeps a
    /// reference to.
    pub fn dup(&mut self, r: &RawValue) -> (c: RawValue)
        ensures
            final(self).staged == old(self).staged,
            final(self).pending == old(self).pending,
            c.view() == r.view(),
            fresh_own(old(self).rc@, final(self).rc@, c),
        decreases r,
    {
        match r {
            RawValue::Null => RawValue::Null,
            RawValue::Undefined => RawValue::Undefined,
            RawValue::Bool(b) => RawValue::Bool(*b),
            RawValue::Int(i) => RawValue::Int(*i),
            RawValue::Float(bits) => RawValue::Float(*bits),
            RawValue::Exception => RawValue::Exception,
            RawValue::Str(_, s) => {
                proof {
                    assert(*r == RawValue::Str(r->Str_0, r->Str_1));
                }
                let id = self.alloc_cell();
                let c = RawValue::Str(id, String::from_str(s.as_str()));
                proof {
                    assert(fresh_own(old(self).rc@, self.rc@, c));
                }
                c
            }
            RawValue::Func(_, index, arity) => {
                let id = self.alloc_cell();
                let c = RawValue::Func(id, *index, *arity);
                proof {
                    assert(fresh_own(old(self).rc@, self.rc@, c));
                }
                c
            }
            RawValue::GlobalObj(_) => {
                let id = self.alloc_cell();
                let c = RawValue::GlobalObj(id);
                proof {
                    assert(fresh_own(old(self).rc@, self.rc@, c));
                }
                c
            }
            RawValue::Arr(_, elems) => {
                proof {
                    assert(*r == RawValue::Arr(r->Arr_0, r->Arr_1));
                    assert(r->Arr_1 == *elems);
                    lemma_raw_views_of(elems@);
                }
                let ghost pre = old(self).rc@;
                let arr_id = self.alloc_cell();
                let mut out: Vec<RawValue> = Vec::new();
                let mut j: usize = 0;
                while j < elems.len()
                    invariant
                        j <= elems.len(),
                        out@.len() == j,
                        *r == RawValue::Arr(r->Arr_0, *elems),
                        self.staged == old(self).staged,
                        self.pending == old(self).pending,
                        pre == old(self).rc@,
                        arr_id == pre.len(),
                        pre.len() < self.rc@.len(),
                        forall|i: int| 0 <= i < pre.len() ==> self.rc@[i] == pre[i],
                        forall|i: int|
                            pre.len() <= i < self.rc@.len() ==> #[trigger] self.rc@[i] == 1u64,
                        forall|i: int| #[trigger]
                            ids_of_list(out@).contains(i) ==> pre.len() < i < self.rc@.len(),
                        forall|i: int|
                            pre.len() < i < self.rc@.len() ==> ids_of_list(out@).contains(i),
                        forall|i: int|
                            0 <= i < j ==> (#[trigger] out@[i].view()) == elems@[i].view(),
                    decreases elems.len() - j,
                {
                    proof {
                        assert(decreases_to!(*r => r->Arr_1));
                        assert(decreases_to!(*elems => elems@));
                        assert(decreases_to!(elems@ => elems@[j as int]));
                    }
                    let ghost mid = self.rc@;
                    let c = self.dup(&elems[j]);
                    let ghost prev = out@;
                    out.push(c);
                    proof {
                        lemma_ids_of_list_push(prev, c);
                        assert forall|i: int|
                            pre.len() < i < self.rc@.len() implies ids_of_list(
                            out@,
                        ).contains(i) by {
                            if i < mid.len() {
                                assert(ids_of_list(prev).contains(i));
                            } else {
                                assert(self.rc@[i] == 1u64);
                                assert(c.id_set().contains(i));
                            }
                        }
                    }
                    j = j + 1;
                }
                let c = RawValue::Arr(arr_id, out);
                proof {
                    lemma_raw_views_of(elems@);
                    lemma_raw_views_of(out@);
                    assert(raw_views_of(out@) =~= raw_views_of(elems@));
                    assert(c.id_set() == ids_of_list(out@).insert(arr_id as int));
                    assert(fresh_own(pre, self.rc@, c));
                }
                c
            }
            RawValue::Obj(_, props) => {
                proof {
                    assert(*r == RawValue::Obj(r->Obj_0, r->Obj_1));
                    assert(r->Obj_1 == *props);
                    lemma_raw_prop_views_of(props@);
                }
                let ghost pre = old(self).rc@;
                let obj_id = self.alloc_cell();
                let mut out: Vec<(String, RawValue)> = Vec::new();
                let mut j: usize = 0;
                while j < props.len()
                    invariant
                        j <= props.len(),
                        out@.len() == j,
                        *r == RawValue::Obj(r->Obj_0, *props),
                        self.staged == old(self).staged,
                        self.pending == old(self).pending,
                        pre == old(self).rc@,
                        obj_id == pre.len(),
                        pre.len() < self.rc@.len(),
                        forall|i: int| 0 <= i < pre.len() ==> self.rc@[i] == pre[i],
                        forall|i: int|
                            pre.len() <= i < self.rc@.len() ==> #[trigger] self.rc@[i] == 1u64,
                        forall|i: int| #[trigger]
                            ids_of_props(out@).contains(i) ==> pre.len() < i < self.rc@.len(),
                        forall|i: int|
                            pre.len() < i < self.rc@.len() ==> ids_of_props(out@).contains(i),
                        forall|i: int|
                            0 <= i < j ==> (#[trigger] out@[i].0@) == props@[i].0@
                                && out@[i].1.view() == props@[i].1.view(),
                    decreases props.len() - j,
                {
                    proof {
                        assert(decreases_to!(*r => r->Obj_1));
                        assert(decreases_to!(*props => props@));
                        assert(decreases_to!(props@ => props@[j as int]));
                        assert(decreases_to!(props@[j as int] => props@[j as int].1));
                    }
                    let key = String::from_str(props[j].0.as_str());
                    let ghost mid = self.rc@;
                    let c = self.dup(&props[j].1);
                    let ghost prev = out@;
                    let ghost kc = (key, c);
                    out.push((key, c));
                    proof {
                        lemma_ids_of_props_push(prev, kc);
                        assert forall|i: int|
                            pre.len() < i < self.rc@.len() implies ids_of_props(
                            out@,
                        ).contains(i) by {
                            if i < mid.len() {
                                assert(ids_of_props(prev).contains(i));
                            } else {
                                assert(self.rc@[i] == 1u64);
                                assert(kc.1.id_set().contains(i));
                            }
                        }
                    }
                    j = j + 1;
                }
                let c = RawValue::Obj(obj_id, out);
                proof {
                    lemma_raw_prop_views_of(props@);
                    lemma_raw_prop_views_of(out@);
                    assert(raw_prop_views_of(out@) =~= raw_prop_views_of(props@));
                    assert(c.id_set() == ids_of_props(out@).insert(obj_id as int));
                    assert(fresh_own(pre, self.rc@, c));
                }
                c
            }
        }
    }
}

} // verus!

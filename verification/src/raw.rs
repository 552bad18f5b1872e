//! The engine-side value representation.
//!
//! An engine value is a tagged variant; tags below zero mark payloads that
//! live in a reference-counted heap cell of the engine. Here every such
//! payload carries the index of its cell in the engine's refcount table,
//! together with the payload data itself.

use crate::value::{JsVal, JsValue, ValueError};
use vstd::prelude::*;
use vstd::string::StringExecFns;

verus! {

// Tags of the engine's value union. All tags below zero are garbage
// collected and must be freed.
pub const TAG_STRING: i64 = -7;

pub const TAG_OBJECT: i64 = -1;

pub const TAG_INT: i64 = 0;

pub const TAG_BOOL: i64 = 1;

pub const TAG_NULL: i64 = 2;

pub const TAG_UNDEFINED: i64 = 3;

pub const TAG_EXCEPTION: i64 = 6;

pub const TAG_FLOAT64: i64 = 7;

/// Mathematical model of an engine value, with heap-cell identities erased.
pub enum RawVal {
    Null,
    Undefined,
    Bool(bool),
    Int(int),
    Float(u64),
    Exception,
    Str(Seq<char>),
    Arr(Seq<RawVal>),
    Obj(Seq<(Seq<char>, RawVal)>),
    /// A native function: its index in the callback registry and its arity.
    Func(int, int),
    /// A reference to the engine's global object, whose properties live in
    /// the context.
    GlobalObj,
}

/// An engine value. String, array, object and native-function payloads carry
/// the index of their heap cell in the engine's refcount table.
#[derive(Debug)]
pub enum RawValue {
    Null,
    Undefined,
    Bool(bool),
    Int(i32),
    Float(u64),
    Exception,
    Str(usize, String),
    Arr(usize, Vec<RawValue>),
    Obj(usize, Vec<(String, RawValue)>),
    /// A native function: its heap cell, its index in the callback registry,
    /// and its declared arity.
    Func(usize, usize, usize),
    /// A reference to the engine's global object, carrying the heap cell of
    /// this reference; the properties themselves live in the context.
    GlobalObj(usize),
}

/// The models of a sequence of engine values, in order.
pub open spec fn raw_views_of(s: Seq<RawValue>) -> Seq<RawVal>
    decreases s, 1int,
{
    if s.len() == 0 {
        Seq::empty()
    } else {
        raw_views_of(s.drop_last()).push(s.last().view())
    }
}

/// The models of a sequence of named engine values, in order.
pub open spec fn raw_prop_views_of(s: Seq<(String, RawValue)>) -> Seq<(Seq<char>, RawVal)>
    decreases s, 1int,
{
    if s.len() == 0 {
        Seq::empty()
    } else {
        raw_prop_views_of(s.drop_last()).push((s.last().0@, s.last().1.view()))
    }
}

/// The heap cells owned by a sequence of engine values.
pub open spec fn ids_of_list(s: Seq<RawValue>) -> Set<int>
    decreases s, 1int,
{
    if s.len() == 0 {
        Set::empty()
    } else {
        ids_of_list(s.drop_last()).union(s.last().id_set())
    }
}

/// The heap cells owned by a sequence of named engine values.
pub open spec fn ids_of_props(s: Seq<(String, RawValue)>) -> Set<int>
    decreases s, 1int,
{
    if s.len() == 0 {
        Set::empty()
    } else {
        ids_of_props(s.drop_last()).union(s.last().1.id_set())
    }
}

impl RawValue {
    /// The mathematical value this engine value stands for.
    pub open spec fn view(self) -> RawVal
        decreases self, 0int,
        via Self::view_decreases
    {
        match self {
            RawValue::Null => RawVal::Null,
            RawValue::Undefined => RawVal::Undefined,
            RawValue::Bool(b) => RawVal::Bool(b),
            RawValue::Int(i) => RawVal::Int(i as int),
            RawValue::Float(bits) => RawVal::Float(bits),
            RawValue::Exception => RawVal::Exception,
            RawValue::Str(_, s) => RawVal::Str(s@),
            RawValue::Arr(_, elems) => RawVal::Arr(raw_views_of(elems@)),
            RawValue::Obj(_, props) => RawVal::Obj(raw_prop_views_of(props@)),
            RawValue::Func(_, index, arity) => RawVal::Func(index as int, arity as int),
            RawValue::GlobalObj(_) => RawVal::GlobalObj,
        }
    }

    #[via_fn]
    proof fn view_decreases(self) {
        match self {
            RawValue::Arr(_, elems) => {
                assert(decreases_to!(self => elems));
                assert(decreases_to!(elems => elems@));
            }
            RawValue::Obj(_, props) => {
                assert(decreases_to!(self => props));
                assert(decreases_to!(props => props@));
            }
            _ => {}
        }
    }

    /// The tag of this engine value.
    pub open spec fn tag_spec(self) -> i64 {
        match self {
            RawValue::Null => TAG_NULL,
            RawValue::Undefined => TAG_UNDEFINED,
            RawValue::Bool(_) => TAG_BOOL,
            RawValue::Int(_) => TAG_INT,
            RawValue::Float(_) => TAG_FLOAT64,
            RawValue::Exception => TAG_EXCEPTION,
            RawValue::Str(_, _) => TAG_STRING,
            RawValue::Arr(_, _) => TAG_OBJECT,
            RawValue::Obj(_, _) => TAG_OBJECT,
            RawValue::Func(_, _, _) => TAG_OBJECT,
            RawValue::GlobalObj(_) => TAG_OBJECT,
        }
    }

    /// Reads the tag of this engine value.
    pub fn tag(&self) -> (t: i64)
        ensures
            t == self.tag_spec(),
    {
        match self {
            RawValue::Null => TAG_NULL,
            RawValue::Undefined => TAG_UNDEFINED,
            RawValue::Bool(_) => TAG_BOOL,
            RawValue::Int(_) => TAG_INT,
            RawValue::Float(_) => TAG_FLOAT64,
            RawValue::Exception => TAG_EXCEPTION,
            RawValue::Str(_, _) => TAG_STRING,
            RawValue::Arr(_, _) => TAG_OBJECT,
            RawValue::Obj(_, _) => TAG_OBJECT,
            RawValue::Func(_, _, _) => TAG_OBJECT,
            RawValue::GlobalObj(_) => TAG_OBJECT,
        }
    }

    /// The heap cells this engine value owns. Non-refcounted tags own none.
    pub open spec fn id_set(self) -> Set<int>
        decreases self, 0int,
        via Self::id_set_decreases
    {
        match self {
            RawValue::Str(id, _) => Set::empty().insert(id as int),
            RawValue::Arr(id, elems) => ids_of_list(elems@).insert(id as int),
            RawValue::Obj(id, props) => ids_of_props(props@).insert(id as int),
            RawValue::Func(id, _, _) => Set::empty().insert(id as int),
            RawValue::GlobalObj(id) => Set::empty().insert(id as int),
            _ => Set::empty(),
        }
    }

    #[via_fn]
    proof fn id_set_decreases(self) {
        match self {
            RawValue::Arr(_, elems) => {
                assert(decreases_to!(self => elems));
                assert(decreases_to!(elems => elems@));
            }
            RawValue::Obj(_, props) => {
                assert(decreases_to!(self => props));
                assert(decreases_to!(props => props@));
            }
            _ => {}
        }
    }
}

/// Pointwise reading of [`raw_views_of`].
pub proof fn lemma_raw_views_of(s: Seq<RawValue>)
    ensures
        raw_views_of(s).len() == s.len(),
        forall|i: int| 0 <= i < s.len() ==> raw_views_of(s)[i] == s[i].view(),
    decreases s.len(),
{
    if s.len() > 0 {
        lemma_raw_views_of(s.drop_last());
    }
}

/// Pointwise reading of [`raw_prop_views_of`].
pub proof fn lemma_raw_prop_views_of(s: Seq<(String, RawValue)>)
    ensures
        raw_prop_views_of(s).len() == s.len(),
        forall|i: int| 0 <= i < s.len() ==> raw_prop_views_of(s)[i] == (s[i].0@, s[i].1.view()),
    decreases s.len(),
{
    if s.len() > 0 {
        lemma_raw_prop_views_of(s.drop_last());
    }
}

/// The named properties of an engine value: the property table of a plain
/// object; other values carry none.
pub open spec fn obj_props(r: RawValue) -> Seq<(String, RawValue)> {
    match r {
        RawValue::Obj(_, ps) => ps@,
        _ => Seq::empty(),
    }
}

/// The value bound to a name in a property table: the last binding wins,
/// as later writes of a name overwrite earlier ones.
pub open spec fn raw_lookup(ps: Seq<(String, RawValue)>, name: Seq<char>) -> Option<RawValue>
    decreases ps.len(),
{
    if ps.len() == 0 {
        None
    } else if ps.last().0@ == name {
        Some(ps.last().1)
    } else {
        raw_lookup(ps.drop_last(), name)
    }
}

/// Appending an element adds exactly its cells.
pub proof fn lemma_ids_of_list_push(s: Seq<RawValue>, x: RawValue)
    ensures
        ids_of_list(s.push(x)) == ids_of_list(s).union(x.id_set()),
{
    assert(s.push(x).drop_last() =~= s);
    assert(s.push(x).last() == x);
}

/// Appending a property adds exactly its value's cells.
pub proof fn lemma_ids_of_props_push(s: Seq<(String, RawValue)>, p: (String, RawValue))
    ensures
        ids_of_props(s.push(p)) == ids_of_props(s).union(p.1.id_set()),
{
    assert(s.push(p).drop_last() =~= s);
    assert(s.push(p).last() == p);
}

/// How a host value is laid out as an engine value: primitives map to the
/// matching tag and payload, strings and composites keep their contents.
pub open spec fn encode(v: JsVal) -> RawVal
    decreases v, 0int,
{
    match v {
        JsVal::Null => RawVal::Null,
        JsVal::Bool(b) => RawVal::Bool(b),
        JsVal::Int(i) => RawVal::Int(i),
        JsVal::Float(bits) => RawVal::Float(bits),
        JsVal::Str(s) => RawVal::Str(s),
        JsVal::Arr(vs) => RawVal::Arr(encode_list(vs)),
        JsVal::Obj(ps) => RawVal::Obj(encode_props(ps)),
    }
}

/// Elementwise [`encode`] of a sequence of host values.
pub open spec fn encode_list(vs: Seq<JsVal>) -> Seq<RawVal>
    decreases vs, 1int,
{
    if vs.len() == 0 {
        Seq::empty()
    } else {
        encode_list(vs.drop_last()).push(encode(vs.last()))
    }
}

/// Elementwise [`encode`] of a sequence of named host values.
pub open spec fn encode_props(ps: Seq<(Seq<char>, JsVal)>) -> Seq<(Seq<char>, RawVal)>
    decreases ps, 1int,
{
    if ps.len() == 0 {
        Seq::empty()
    } else {
        encode_props(ps.drop_last()).push((ps.last().0, encode(ps.last().1)))
    }
}

/// Pointwise reading of [`encode_list`].
pub proof fn lemma_encode_list(vs: Seq<JsVal>)
    ensures
        encode_list(vs).len() == vs.len(),
        forall|i: int| 0 <= i < vs.len() ==> encode_list(vs)[i] == encode(vs[i]),
    decreases vs.len(),
{
    if vs.len() > 0 {
        lemma_encode_list(vs.drop_last());
    }
}

/// Pointwise reading of [`encode_props`].
pub proof fn lemma_encode_props(ps: Seq<(Seq<char>, JsVal)>)
    ensures
        encode_props(ps).len() == ps.len(),
        forall|i: int| 0 <= i < ps.len() ==> encode_props(ps)[i] == (ps[i].0, encode(ps[i].1)),
    decreases ps.len(),
{
    if ps.len() > 0 {
        lemma_encode_props(ps.drop_last());
    }
}

/// How an engine value reads back as a host value. Int, Bool and Float map
/// directly; Null and Undefined both collapse to Null; a string keeps its
/// text; an array object reads back elementwise. A plain object or a native
/// function is an unsupported object; any other tag is unhandled.
pub open spec fn decode(r: RawVal) -> Result<JsVal, Seq<char>>
    decreases r, 0int,
{
    match r {
        RawVal::Null => Ok(JsVal::Null),
        RawVal::Undefined => Ok(JsVal::Null),
        RawVal::Bool(b) => Ok(JsVal::Bool(b)),
        RawVal::Int(i) => Ok(JsVal::Int(i)),
        RawVal::Float(bits) => Ok(JsVal::Float(bits)),
        RawVal::Str(s) => Ok(JsVal::Str(s)),
        RawVal::Arr(vs) => match decode_list(vs) {
            Ok(out) => Ok(JsVal::Arr(out)),
            Err(m) => Err(m),
        },
        RawVal::Obj(_) => Err("Unsupported JS type: Object"@),
        RawVal::Func(_, _) => Err("Unsupported JS type: Object"@),
        RawVal::GlobalObj => Err("Unsupported JS type: Object"@),
        RawVal::Exception => Err("Unhandled JS_TAG value: 6"@),
    }
}

/// Elementwise [`decode`]; the first failing element decides the error.
pub open spec fn decode_list(vs: Seq<RawVal>) -> Result<Seq<JsVal>, Seq<char>>
    decreases vs, 1int,
{
    if vs.len() == 0 {
        Ok(Seq::empty())
    } else {
        match decode(vs.first()) {
            Err(m) => Err(m),
            Ok(h) => match decode_list(vs.drop_first()) {
                Err(m) => Err(m),
                Ok(t) => Ok(seq![h] + t),
            },
        }
    }
}

/// When every element decodes, the list decodes elementwise.
pub proof fn lemma_decode_list_ok(vs: Seq<RawVal>)
    requires
        forall|i: int| 0 <= i < vs.len() ==> #[trigger] decode(vs[i]) is Ok,
    ensures
        decode_list(vs) is Ok,
        decode_list(vs)->Ok_0.len() == vs.len(),
        forall|i: int| 0 <= i < vs.len() ==> decode_list(vs)->Ok_0[i] == #[trigger] decode(
            vs[i],
        )->Ok_0,
    decreases vs.len(),
{
    if vs.len() > 0 {
        let tail = vs.drop_first();
        assert(vs.first() == vs[0]);
        assert(decode(vs[0]) is Ok);
        assert forall|i: int| 0 <= i < tail.len() implies #[trigger] decode(tail[i]) is Ok by {
            assert(tail[i] == vs[i + 1]);
            assert(decode(vs[i + 1]) is Ok);
        }
        lemma_decode_list_ok(tail);
        let h = decode(vs[0])->Ok_0;
        let t = decode_list(tail)->Ok_0;
        assert(decode_list(vs) == Ok::<Seq<JsVal>, Seq<char>>(seq![h] + t));
        assert forall|i: int| 0 <= i < vs.len() implies decode_list(vs)->Ok_0[i]
            == #[trigger] decode(vs[i])->Ok_0 by {
            if i == 0 {
                assert((seq![h] + t)[0] == h);
            } else {
                assert((seq![h] + t)[i] == t[i - 1]);
                assert(tail[i - 1] == vs[i]);
                assert(t[i - 1] == decode(tail[i - 1])->Ok_0);
            }
        }
    }
}

/// The first failing element decides the list's error.
pub proof fn lemma_decode_list_err(vs: Seq<RawVal>, k: int)
    requires
        0 <= k < vs.len(),
        forall|i: int| 0 <= i < k ==> #[trigger] decode(vs[i]) is Ok,
        decode(vs[k]) is Err,
    ensures
        decode_list(vs) == Err::<Seq<JsVal>, Seq<char>>(decode(vs[k])->Err_0),
    decreases vs.len(),
{
    assert(vs.first() == vs[0]);
    if k > 0 {
        let tail = vs.drop_first();
        assert(decode(vs[0]) is Ok);
        assert forall|i: int| 0 <= i < k - 1 implies #[trigger] decode(tail[i]) is Ok by {
            assert(tail[i] == vs[i + 1]);
            assert(decode(vs[i + 1]) is Ok);
        }
        assert(tail[k - 1] == vs[k]);
        lemma_decode_list_err(tail, k - 1);
    }
}

impl RawValue {
    /// Deserialize this engine value into a host value, exactly as
    /// [`decode`] reads its model.
    pub fn to_value(&self) -> (res: Result<JsValue, ValueError>)
        ensures
            match res {
                Ok(v) => decode(self.view()) is Ok && v.view() == decode(self.view())->Ok_0,
                Err(e) => decode(self.view()) is Err && (e matches ValueError::Internal(m)
                    && m@ == decode(self.view())->Err_0),
            },
        decreases self,
    {
        match self {
            RawValue::Null => Ok(JsValue::Null),
            RawValue::Undefined => Ok(JsValue::Null),
            RawValue::Bool(b) => Ok(JsValue::Bool(*b)),
            RawValue::Int(i) => Ok(JsValue::Int(*i)),
            RawValue::Float(bits) => Ok(JsValue::Float(*bits)),
            RawValue::Str(_, s) => Ok(JsValue::String(String::from_str(s.as_str()))),
            RawValue::Arr(aid, elems) => {
                let ghost rs = raw_views_of(elems@);
                proof {
                    assert(*self == RawValue::Arr(*aid, *elems));
                    assert(self.view() == RawVal::Arr(rs));
                    lemma_raw_views_of(elems@);
                }
                let mut out: Vec<JsValue> = Vec::new();
                let mut j: usize = 0;
                while j < elems.len()
                    invariant
                        j <= elems.len(),
                        out@.len() == j,
                        *self == RawValue::Arr(*aid, *elems),
                        self.view() == RawVal::Arr(rs),
                        rs == raw_views_of(elems@),
                        rs.len() == elems@.len(),
                        forall|i: int| 0 <= i < elems@.len() ==> rs[i] == elems@[i].view(),
                        forall|i: int|
                            0 <= i < j ==> #[trigger] decode(rs[i]) is Ok && out@[i].view()
                                == decode(rs[i])->Ok_0,
                    decreases elems.len() - j,
                {
                    proof {
                        assert(decreases_to!(*self => *elems));
                        assert(decreases_to!(*elems => elems@));
                        assert(decreases_to!(elems@ => elems@[j as int]));
                    }
                    match elems[j].to_value() {
                        Ok(v) => {
                            out.push(v);
                        }
                        Err(e) => {
                            proof {
                                lemma_decode_list_err(rs, j as int);
                            }
                            return Err(e);
                        }
                    }
                    j = j + 1;
                }
                proof {
                    lemma_decode_list_ok(rs);
                    lemma_views_of_out(out@);
                    assert(crate::value::views_of(out@) =~= decode_list(rs)->Ok_0);
                }
                Ok(JsValue::Array(out))
            }
            RawValue::Obj(_, _) => Err(
                ValueError::Internal(String::from_str("Unsupported JS type: Object")),
            ),
            RawValue::Func(_, _, _) => Err(
                ValueError::Internal(String::from_str("Unsupported JS type: Object")),
            ),
            RawValue::GlobalObj(_) => Err(
                ValueError::Internal(String::from_str("Unsupported JS type: Object")),
            ),
            RawValue::Exception => Err(
                ValueError::Internal(String::from_str("Unhandled JS_TAG value: 6")),
            ),
        }
    }
}

/// Pointwise reading of the host-value views of a vector's contents.
proof fn lemma_views_of_out(s: Seq<JsValue>)
    ensures
        crate::value::views_of(s).len() == s.len(),
        forall|i: int| 0 <= i < s.len() ==> crate::value::views_of(s)[i] == s[i].view(),
{
    crate::value::lemma_views_of(s);
}

} // verus!

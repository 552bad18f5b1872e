//! The host-facing value model and the error taxonomy.

use vstd::prelude::*;
use vstd::string::StrSliceExecFns;
use vstd::string::StringExecFns;

verus! {

/// Mathematical model of a host value: the interchange format that crosses
/// the host/engine boundary.
pub enum JsVal {
    Null,
    Bool(bool),
    Int(int),
    /// IEEE-754 double, kept as its bit pattern.
    Float(u64),
    Str(Seq<char>),
    Arr(Seq<JsVal>),
    Obj(Seq<(Seq<char>, JsVal)>),
}

/// The canonical host value. Engine-independent; never holds an engine cell.
///
/// A floating-point payload is carried as its IEEE-754 bit pattern so that
/// conversions are exact; the surrounding application converts to and from
/// `f64` at the outermost boundary.
#[derive(Debug, PartialEq)]
pub enum JsValue {
    Null,
    Bool(bool),
    Int(i32),
    Float(u64),
    String(String),
    Array(Vec<JsValue>),
    /// A string-keyed mapping; insertion order is preserved on write.
    Object(Vec<(String, JsValue)>),
}

impl JsValue {
    /// The mathematical value this host value stands for.
    pub open spec fn view(self) -> JsVal
        decreases self, 0int,
        via Self::view_decreases
    {
        match self {
            JsValue::Null => JsVal::Null,
            JsValue::Bool(b) => JsVal::Bool(b),
            JsValue::Int(i) => JsVal::Int(i as int),
            JsValue::Float(bits) => JsVal::Float(bits),
            JsValue::String(s) => JsVal::Str(s@),
            JsValue::Array(items) => JsVal::Arr(views_of(items@)),
            JsValue::Object(props) => JsVal::Obj(prop_views_of(props@)),
        }
    }

    #[via_fn]
    proof fn view_decreases(self) {
        match self {
            JsValue::Array(items) => {
                assert(decreases_to!(self => items));
                assert(decreases_to!(items => items@));
            }
            JsValue::Object(props) => {
                assert(decreases_to!(self => props));
                assert(decreases_to!(props => props@));
            }
            _ => {}
        }
    }
}

/// The mathematical values of a sequence of host values, in order.
pub open spec fn views_of(s: Seq<JsValue>) -> Seq<JsVal>
    decreases s, 1int,
{
    if s.len() == 0 {
        Seq::empty()
    } else {
        views_of(s.drop_last()).push(s.last().view())
    }
}

/// The mathematical values of a sequence of named host values, in order.
pub open spec fn prop_views_of(s: Seq<(String, JsValue)>) -> Seq<(Seq<char>, JsVal)>
    decreases s, 1int,
{
    if s.len() == 0 {
        Seq::empty()
    } else {
        prop_views_of(s.drop_last()).push((s.last().0@, s.last().1.view()))
    }
}

/// Pointwise reading of [`views_of`].
pub proof fn lemma_views_of(s: Seq<JsValue>)
    ensures
        views_of(s).len() == s.len(),
        forall|i: int| 0 <= i < s.len() ==> views_of(s)[i] == s[i].view(),
    decreases s.len(),
{
    if s.len() > 0 {
        lemma_views_of(s.drop_last());
    }
}

/// Pointwise reading of [`prop_views_of`].
pub proof fn lemma_prop_views_of(s: Seq<(String, JsValue)>)
    ensures
        prop_views_of(s).len() == s.len(),
        forall|i: int| 0 <= i < s.len() ==> prop_views_of(s)[i] == (s[i].0@, s[i].1.view()),
    decreases s.len(),
{
    if s.len() > 0 {
        lemma_prop_views_of(s.drop_last());
    }
}

/// No embedded NUL character anywhere in the text.
pub open spec fn seq_nul_free(s: Seq<char>) -> bool {
    forall|i: int| 0 <= i < s.len() ==> s[i] != '\0'
}

/// Every string and every key reachable in the value is free of embedded
/// NUL characters, so the whole value can be handed to the engine.
pub open spec fn val_nul_free(v: JsVal) -> bool
    decreases v, 0int,
{
    match v {
        JsVal::Str(s) => seq_nul_free(s),
        JsVal::Arr(vs) => list_nul_free(vs),
        JsVal::Obj(ps) => props_nul_free(ps),
        _ => true,
    }
}

/// Every element of the sequence is free of embedded NUL characters.
pub open spec fn list_nul_free(vs: Seq<JsVal>) -> bool
    decreases vs, 1int,
{
    vs.len() == 0 || (list_nul_free(vs.drop_last()) && val_nul_free(vs.last()))
}

/// Every key and every value of the sequence is free of embedded NUL
/// characters.
pub open spec fn props_nul_free(ps: Seq<(Seq<char>, JsVal)>) -> bool
    decreases ps, 1int,
{
    ps.len() == 0 || (props_nul_free(ps.drop_last()) && seq_nul_free(ps.last().0)
        && val_nul_free(ps.last().1))
}

/// Pointwise reading of [`list_nul_free`].
pub proof fn lemma_list_nul_free(vs: Seq<JsVal>)
    ensures
        list_nul_free(vs) == (forall|i: int|
            0 <= i < vs.len() ==> #[trigger] val_nul_free(vs[i])),
    decreases vs.len(),
{
    if vs.len() > 0 {
        lemma_list_nul_free(vs.drop_last());
        if list_nul_free(vs) {
            assert forall|i: int| 0 <= i < vs.len() implies #[trigger] val_nul_free(vs[i]) by {
                if i < vs.len() - 1 {
                    assert(vs.drop_last()[i] == vs[i]);
                    assert(val_nul_free(vs.drop_last()[i]));
                } else {
                    assert(vs[i] == vs.last());
                }
            }
        }
        if forall|i: int| 0 <= i < vs.len() ==> #[trigger] val_nul_free(vs[i]) {
            assert forall|i: int|
                0 <= i < vs.drop_last().len() implies #[trigger] val_nul_free(
                vs.drop_last()[i],
            ) by {
                assert(vs.drop_last()[i] == vs[i]);
                assert(val_nul_free(vs[i]));
            }
            assert(vs.last() == vs[vs.len() - 1]);
            assert(val_nul_free(vs[vs.len() - 1]));
            assert(list_nul_free(vs));
        }
    }
}

/// Pointwise reading of [`props_nul_free`].
pub proof fn lemma_props_nul_free(ps: Seq<(Seq<char>, JsVal)>)
    ensures
        props_nul_free(ps) == (forall|i: int|
            0 <= i < ps.len() ==> seq_nul_free(#[trigger] ps[i].0) && val_nul_free(ps[i].1)),
    decreases ps.len(),
{
    if ps.len() > 0 {
        lemma_props_nul_free(ps.drop_last());
        if props_nul_free(ps) {
            assert forall|i: int|
                0 <= i < ps.len() implies seq_nul_free(#[trigger] ps[i].0) && val_nul_free(
                ps[i].1,
            ) by {
                if i < ps.len() - 1 {
                    assert(props_nul_free(ps.drop_last()));
                    assert(ps.drop_last()[i] == ps[i]);
                    assert(seq_nul_free(ps.drop_last()[i].0));
                    assert(val_nul_free(ps.drop_last()[i].1));
                } else {
                    assert(ps[i] == ps.last());
                    assert(seq_nul_free(ps.last().0));
                    assert(val_nul_free(ps.last().1));
                }
            }
        }
        if forall|i: int|
            0 <= i < ps.len() ==> seq_nul_free(#[trigger] ps[i].0) && val_nul_free(ps[i].1) {
            assert forall|i: int|
                0 <= i < ps.drop_last().len() implies seq_nul_free(
                #[trigger] ps.drop_last()[i].0,
            ) && val_nul_free(ps.drop_last()[i].1) by {
                assert(ps.drop_last()[i] == ps[i]);
                assert(seq_nul_free(ps[i].0) && val_nul_free(ps[i].1));
            }
            assert(ps.last() == ps[ps.len() - 1]);
            assert(seq_nul_free(ps[ps.len() - 1].0) && val_nul_free(ps[ps.len() - 1].1));
            assert(props_nul_free(ps.drop_last()));
            assert(seq_nul_free(ps.last().0));
            assert(val_nul_free(ps.last().1));
            assert(props_nul_free(ps));
        }
    }
}

/// Checks a string for embedded NUL characters.
pub fn str_is_nul_free(s: &str) -> (r: bool)
    ensures
        r == seq_nul_free(s@),
{
    let n = s.unicode_len();
    let mut i: usize = 0;
    while i < n
        invariant
            n == s@.len(),
            i <= n,
            forall|j: int| 0 <= j < i ==> s@[j] != '\0',
        decreases n - i,
    {
        if s.get_char(i) == '\0' {
            return false;
        }
        i = i + 1;
    }
    true
}

/// A failure while converting a value across the host/engine boundary.
#[derive(Debug, PartialEq)]
pub enum ValueError {
    /// The host string holds an embedded NUL and cannot cross the boundary.
    StringWithZeroBytes,
    /// Engine-side text was not valid UTF-8.
    InvalidString,
    /// An unexpected engine-side allocation or conversion failure.
    Internal(String),
}

/// A failure while evaluating code or invoking a callable.
#[derive(Debug, PartialEq)]
pub enum ExecutionError {
    /// A script-level thrown value, propagated as data.
    Exception(JsValue),
    /// Engine misbehavior, a missing property, or an allocation failure.
    Internal(String),
    /// A value-layer failure met while moving data across the boundary.
    Conversion(ValueError),
}

/// A failure while constructing the engine context. A context that failed
/// to construct must not be used.
#[derive(Debug, PartialEq)]
pub enum ContextError {
    RuntimeCreationFailed,
    ContextCreationFailed,
}

impl ValueError {
    /// The user-visible text of this error.
    pub open spec fn message_spec(self) -> Seq<char> {
        match self {
            ValueError::StringWithZeroBytes => "string contains embedded NUL"@,
            ValueError::InvalidString => "invalid string encoding"@,
            ValueError::Internal(m) => m@,
        }
    }

    /// The user-visible text of this error.
    pub fn message(&self) -> (r: String)
        ensures
            r@ == self.message_spec(),
    {
        match self {
            ValueError::StringWithZeroBytes => String::from_str("string contains embedded NUL"),
            ValueError::InvalidString => String::from_str("invalid string encoding"),
            ValueError::Internal(m) => String::from_str(m.as_str()),
        }
    }
}

impl ExecutionError {
    /// The user-visible text of this error: the payload a thrown script
    /// exception is built from.
    pub open spec fn message_spec(self) -> Seq<char> {
        match self {
            ExecutionError::Exception(_) => "Uncaught exception"@,
            ExecutionError::Internal(m) => m@,
            ExecutionError::Conversion(v) => v.message_spec(),
        }
    }

    /// The user-visible text of this error.
    pub fn message(&self) -> (r: String)
        ensures
            r@ == self.message_spec(),
    {
        match self {
            ExecutionError::Exception(_) => String::from_str("Uncaught exception"),
            ExecutionError::Internal(m) => String::from_str(m.as_str()),
            ExecutionError::Conversion(v) => v.message(),
        }
    }
}

} // verus!

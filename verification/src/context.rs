//! The engine context: value conversion, script evaluation, function
//! invocation and the callback registry, together with the owned handles
//! that track the release of engine values.

use crate::callback::Callback;
use crate::engine::{fresh_own, released, rolled_back, Engine};
use crate::raw::{
    encode, raw_views_of, RawVal, RawValue, TAG_EXCEPTION, TAG_OBJECT, TAG_STRING,
};
use crate::text::{i32_to_dec, int_dec_seq};
use crate::value::{
    seq_nul_free, str_is_nul_free, val_nul_free, ExecutionError, JsVal, JsValue, ValueError,
};
use vstd::prelude::*;
use vstd::string::StringExecFns;

verus! {

/// An owned handle to one engine value.
///
/// The handle exclusively owns the heap cells of its value. Releasing it
/// through [`ContextWrapper::free_value`] frees those cells and rewrites the
/// slot to the inert null value, so a second release frees nothing: release
/// happens exactly once. [`OwnedValueRef::into_inner`] transfers the value
/// out and disarms the handle the same way.
#[derive(Debug)]
pub struct OwnedValueRef {
    /// The engine value this handle owns.
    pub raw: RawValue,
}

impl OwnedValueRef {
    /// Wraps a raw engine value in an owned handle.
    pub fn new(value: RawValue) -> (h: OwnedValueRef)
        ensures
            h.raw == value,
    {
        OwnedValueRef { raw: value }
    }

    /// Transfers the raw value out and disarms the handle by rewriting its
    /// slot to the inert null value, which owns no cells.
    pub fn into_inner(&mut self) -> (r: RawValue)
        ensures
            r == old(self).raw,
            final(self).raw == RawValue::Null,
    {
        let mut r = RawValue::Null;
        core::mem::swap(&mut r, &mut self.raw);
        r
    }

    /// Whether the wrapped value carries the exception tag.
    pub fn is_exception(&self) -> (r: bool)
        ensures
            r == (self.raw.tag_spec() == TAG_EXCEPTION),
    {
        self.raw.tag() == TAG_EXCEPTION
    }

    /// Whether the wrapped value carries the object tag.
    pub fn is_object(&self) -> (r: bool)
        ensures
            r == (self.raw.tag_spec() == TAG_OBJECT),
    {
        self.raw.tag() == TAG_OBJECT
    }

    /// Whether the wrapped value carries the string tag.
    pub fn is_string(&self) -> (r: bool)
        ensures
            r == (self.raw.tag_spec() == TAG_STRING),
    {
        self.raw.tag() == TAG_STRING
    }

    /// Deserializes the wrapped value into a host value.
    pub fn to_value(&self) -> (res: Result<JsValue, ValueError>)
        ensures
            match res {
                Ok(v) => crate::raw::decode(self.raw.view()) is Ok && v.view()
                    == crate::raw::decode(self.raw.view())->Ok_0,
                Err(e) => crate::raw::decode(self.raw.view()) is Err && (e matches
                    ValueError::Internal(m) && m@ == crate::raw::decode(self.raw.view())->Err_0),
            },
    {
        self.raw.to_value()
    }

    /// Coerces the wrapped value to text. A string converts directly; the
    /// other primitive tags coerce to their canonical text; a coercion that
    /// does not yield a string-tagged value is an internal error.
    pub fn to_string(&self) -> (res: Result<String, ExecutionError>)
        ensures
            match res {
                Ok(out) => coerce_str(self.raw.view()) is Some && out@ == coerce_str(
                    self.raw.view(),
                )->Some_0,
                Err(e) => coerce_str(self.raw.view()) is None && (e matches
                    ExecutionError::Internal(m) && m@ == "Could not convert value to string"@),
            },
    {
        match &self.raw {
            RawValue::Str(_, s) => Ok(String::from_str(s.as_str())),
            RawValue::Int(i) => Ok(i32_to_dec(*i)),
            RawValue::Bool(b) => {
                if *b {
                    Ok(String::from_str("true"))
                } else {
                    Ok(String::from_str("false"))
                }
            }
            RawValue::Null => Ok(String::from_str("null")),
            RawValue::Undefined => Ok(String::from_str("undefined")),
            _ => Err(
                ExecutionError::Internal(String::from_str("Could not convert value to string")),
            ),
        }
    }
}

/// The text a primitive engine value coerces to; composite and exceptional
/// values have none in the model.
pub open spec fn coerce_str(r: RawVal) -> Option<Seq<char>> {
    match r {
        RawVal::Str(s) => Some(s),
        RawVal::Int(i) => Some(int_dec_seq(i)),
        RawVal::Bool(b) => Some(if b { "true"@ } else { "false"@ }),
        RawVal::Null => Some("null"@),
        RawVal::Undefined => Some("undefined"@),
        _ => None,
    }
}

/// Wraps a quickly verifiable engine context: the modeled engine heap, the
/// global object's property table, and the append-only callback registry
/// that keeps every registered callback alive for the context's lifetime.
pub struct ContextWrapper<C: Callback> {
    /// The modeled engine: heap bookkeeping, staged outcome, pending
    /// exception.
    pub engine: Engine,
    /// The global object's named properties, in insertion order.
    pub globals: Vec<(String, RawValue)>,
    /// The callback registry. Entries are never removed.
    pub callbacks: Vec<C>,
}

impl<C: Callback> ContextWrapper<C> {
    /// A fresh context over a fresh engine.
    ///
    /// The modeled engine cannot fail to allocate, so construction always
    /// succeeds; the error type records the construction failures of a real
    /// runtime, which make the context unusable.
    pub fn new() -> (res: Result<Self, crate::value::ContextError>)
        ensures
            res matches Ok(c) && c.engine.rc@ == Seq::<u64>::empty() && c.engine.staged is None
                && c.engine.pending is None && c.globals@ == Seq::<(String, RawValue)>::empty()
                && c.callbacks@ == Seq::<C>::empty(),
    {
        Ok(
            ContextWrapper {
                engine: Engine::new(),
                globals: Vec::new(),
                callbacks: Vec::new(),
            },
        )
    }

    /// Serializes a host value into an engine value owned by a fresh
    /// handle. Succeeds exactly when no string or key in the value holds an
    /// embedded NUL; on failure every cell allocated for the partially
    /// built value has been released again.
    pub fn serialize_value(&mut self, value: &JsValue) -> (res: Result<OwnedValueRef, ValueError>)
        ensures
            final(self).engine.staged == old(self).engine.staged,
            final(self).engine.pending == old(self).engine.pending,
            final(self).globals == old(self).globals,
            final(self).callbacks == old(self).callbacks,
            (res is Ok) == val_nul_free(value.view()),
            match res {
                Ok(h) => h.raw.view() == encode(value.view()) && fresh_own(
                    old(self).engine.rc@,
                    final(self).engine.rc@,
                    h.raw,
                ),
                Err(er) => er is StringWithZeroBytes && rolled_back(
                    old(self).engine.rc@,
                    final(self).engine.rc@,
                ),
            },
    {
        match self.engine.serialize(value) {
            Ok(r) => Ok(OwnedValueRef::new(r)),
            Err(er) => Err(er),
        }
    }

    /// Releases a handle's value: every heap cell it owns is freed, and the
    /// handle is rewritten to the inert null value. Releasing the same
    /// handle again therefore frees nothing: release happens exactly once.
    pub fn free_value(&mut self, h: &mut OwnedValueRef)
        ensures
            final(self).engine.rc@ == released(old(self).engine.rc@, old(h).raw.id_set()),
            final(self).engine.staged == old(self).engine.staged,
            final(self).engine.pending == old(self).engine.pending,
            final(self).globals == old(self).globals,
            final(self).callbacks == old(self).callbacks,
            final(h).raw == RawValue::Null,
    {
        let r = h.into_inner();
        self.engine.release(&r);
    }

    /// Stages the value the next evaluation will produce, releasing any
    /// outcome staged before. This stands for the engine-side work of a
    /// script run: the model does not interpret source text, so the outcome
    /// of the next run is an input of the model.
    pub fn stage_eval_result(&mut self, v: &JsValue) -> (res: Result<(), ValueError>)
        ensures
            final(self).globals == old(self).globals,
            final(self).callbacks == old(self).callbacks,
            final(self).engine.pending == old(self).engine.pending,
            (res is Ok) == val_nul_free(v.view()),
            ({
                let cleared = released(old(self).engine.rc@, opt_ids(old(self).engine.staged));
                match res {
                    Ok(_) => final(self).engine.staged matches Some(r) && r.view() == encode(
                        v.view(),
                    ) && fresh_own(cleared, final(self).engine.rc@, r),
                    Err(er) => er is StringWithZeroBytes && final(self).engine.staged is None
                        && rolled_back(cleared, final(self).engine.rc@),
                }
            }),
    {
        let mut staged_tmp: Option<RawValue> = None;
        core::mem::swap(&mut staged_tmp, &mut self.engine.staged);
        match staged_tmp {
            Some(o) => {
                self.engine.release(&o);
            }
            None => {
                proof {
                    crate::engine::lemma_released_empty(self.engine.rc@);
                }
            }
        }
        match self.engine.serialize(v) {
            Ok(r) => {
                self.engine.staged = Some(r);
                Ok(())
            }
            Err(er) => Err(er),
        }
    }

    /// Stages a throwing evaluation: the next run will produce the
    /// exception tag, with the given value pending as the thrown payload.
    /// Any outcome or pending exception staged before is released.
    pub fn stage_eval_throw(&mut self, v: &JsValue) -> (res: Result<(), ValueError>)
        ensures
            final(self).globals == old(self).globals,
            final(self).callbacks == old(self).callbacks,
            (res is Ok) == val_nul_free(v.view()),
            ({
                let cleared = released(
                    old(self).engine.rc@,
                    opt_ids(old(self).engine.staged).union(opt_ids(old(self).engine.pending)),
                );
                match res {
                    Ok(_) => final(self).engine.staged == Some(RawValue::Exception)
                        && (final(self).engine.pending matches Some(r) && r.view() == encode(
                        v.view(),
                    ) && fresh_own(cleared, final(self).engine.rc@, r)),
                    Err(er) => er is StringWithZeroBytes && final(self).engine.staged is None
                        && final(self).engine.pending is None && rolled_back(
                        cleared,
                        final(self).engine.rc@,
                    ),
                }
            }),
    {
        let ghost rc0 = self.engine.rc@;
        let ghost s_ids = opt_ids(self.engine.staged);
        let ghost p_ids = opt_ids(self.engine.pending);
        let mut staged_tmp: Option<RawValue> = None;
        core::mem::swap(&mut staged_tmp, &mut self.engine.staged);
        match staged_tmp {
            Some(o) => {
                self.engine.release(&o);
            }
            None => {
                proof {
                    crate::engine::lemma_released_empty(self.engine.rc@);
                }
            }
        }
        let mut pending_tmp: Option<RawValue> = None;
        core::mem::swap(&mut pending_tmp, &mut self.engine.pending);
        match pending_tmp {
            Some(o) => {
                self.engine.release(&o);
            }
            None => {
                proof {
                    crate::engine::lemma_released_empty(self.engine.rc@);
                }
            }
        }
        proof {
            crate::engine::lemma_released_union(rc0, s_ids, p_ids);
        }
        match self.engine.serialize(v) {
            Ok(r) => {
                self.engine.pending = Some(r);
                self.engine.staged = Some(RawValue::Exception);
                Ok(())
            }
            Err(er) => Err(er),
        }
    }

    /// Retrieves the pending exception, leaving none pending. Mirrors the
    /// engine's exception query: with nothing pending the result is the
    /// null value; a result that itself carries the exception tag cannot be
    /// retrieved.
    fn get_exception(&mut self) -> (res: Result<OwnedValueRef, ExecutionError>)
        ensures
            final(self).engine.pending is None,
            final(self).engine.staged == old(self).engine.staged,
            final(self).engine.rc@ == old(self).engine.rc@,
            final(self).globals == old(self).globals,
            final(self).callbacks == old(self).callbacks,
            ({
                let p0 = match old(self).engine.pending {
                    Some(p) => p,
                    None => RawValue::Null,
                };
                if p0.tag_spec() == TAG_EXCEPTION {
                    res matches Err(ExecutionError::Exception(v)) && v.view() == JsVal::Str(
                        "Could not get last exception"@,
                    )
                } else {
                    res matches Ok(h) && h.raw == p0
                }
            }),
    {
        let mut pending_tmp: Option<RawValue> = None;
        core::mem::swap(&mut pending_tmp, &mut self.engine.pending);
        let p0 = match pending_tmp {
            Some(p) => p,
            None => RawValue::Null,
        };
        let value = OwnedValueRef::new(p0);
        if value.is_exception() {
            Err(
                ExecutionError::Exception(
                    JsValue::String(String::from_str("Could not get last exception")),
                ),
            )
        } else {
            Ok(value)
        }
    }

    /// Evaluates source text as top-level global-scope code.
    ///
    /// The modeled engine does not interpret the text: the run produces the
    /// staged outcome (the undefined value when none is staged). Source
    /// text with an embedded NUL is rejected before the engine sees it. A
    /// result carrying the exception tag is resolved through the pending
    /// exception: its payload is converted to a host value and surfaces as
    /// an exception error; if the payload cannot be retrieved or converted,
    /// the error degrades to the opaque unknown-exception failure.
    pub fn eval(&mut self, code: &str) -> (res: Result<OwnedValueRef, ExecutionError>)
        ensures
            final(self).globals == old(self).globals,
            final(self).callbacks == old(self).callbacks,
            !seq_nul_free(code@) ==> (res matches Err(ExecutionError::Conversion(ve)) && ve
                is StringWithZeroBytes) && final(self).engine == old(self).engine,
            seq_nul_free(code@) ==> ({
                let raw0 = match old(self).engine.staged {
                    Some(r) => r,
                    None => RawValue::Undefined,
                };
                let p0 = match old(self).engine.pending {
                    Some(p) => p,
                    None => RawValue::Null,
                };
                &&& final(self).engine.staged is None
                &&& if raw0.tag_spec() != TAG_EXCEPTION {
                    &&& res matches Ok(h) && h.raw == raw0
                    &&& final(self).engine.pending == old(self).engine.pending
                    &&& final(self).engine.rc@ == old(self).engine.rc@
                } else {
                    &&& final(self).engine.pending is None
                    &&& if p0.tag_spec() == TAG_EXCEPTION {
                        res matches Err(ExecutionError::Internal(m)) && m@
                            == "Unknown Exception"@ && final(self).engine.rc@ == old(
                            self,
                        ).engine.rc@
                    } else {
                        &&& final(self).engine.rc@ == released(
                            old(self).engine.rc@,
                            p0.id_set(),
                        )
                        &&& match crate::raw::decode(p0.view()) {
                            Ok(jv) => res matches Err(ExecutionError::Exception(v)) && v.view()
                                == jv,
                            Err(_) => res matches Err(ExecutionError::Internal(m)) && m@
                                == "Unknown Exception"@,
                        }
                    }
                }
            }),
    {
        if !str_is_nul_free(code) {
            return Err(ExecutionError::Conversion(ValueError::StringWithZeroBytes));
        }
        let mut staged_tmp: Option<RawValue> = None;
        core::mem::swap(&mut staged_tmp, &mut self.engine.staged);
        let raw0 = match staged_tmp {
            Some(r) => r,
            None => RawValue::Undefined,
        };
        let value = OwnedValueRef::new(raw0);
        if value.is_exception() {
            match self.get_exception() {
                Ok(eh) => {
                    match eh.raw.to_value() {
                        Ok(jv) => {
                            self.engine.release(&eh.raw);
                            Err(ExecutionError::Exception(jv))
                        }
                        Err(_) => {
                            self.engine.release(&eh.raw);
                            Err(ExecutionError::Internal(String::from_str("Unknown Exception")))
                        }
                    }
                }
                Err(_) => Err(ExecutionError::Internal(String::from_str("Unknown Exception"))),
            }
        } else {
            Ok(value)
        }
    }
}

/// The heap cells owned by an optional engine value.
pub open spec fn opt_ids(o: Option<RawValue>) -> Set<int> {
    match o {
        Some(r) => r.id_set(),
        None => Set::empty(),
    }
}

/// The raw engine values held by a sequence of owned handles.
pub open spec fn raws_of(hs: Seq<OwnedValueRef>) -> Seq<RawValue> {
    hs.map_values(|h: OwnedValueRef| h.raw)
}

/// How one dispatch outcome maps to the result of executing a callback:
/// success serializes the produced value into a fresh owned handle, a
/// business-logic failure becomes an execution-internal error, and an
/// infrastructure failure propagates as a conversion error.
pub open spec fn callback_outcome(
    inner: Result<Result<JsValue, String>, ValueError>,
    res: Result<OwnedValueRef, ExecutionError>,
    rc_pre: Seq<u64>,
    rc_post: Seq<u64>,
) -> bool {
    match inner {
        Err(ve) => res == Err::<OwnedValueRef, ExecutionError>(ExecutionError::Conversion(ve))
            && rc_post == rc_pre,
        Ok(Err(m)) => res == Err::<OwnedValueRef, ExecutionError>(ExecutionError::Internal(m))
            && rc_post == rc_pre,
        Ok(Ok(v)) => {
            &&& val_nul_free(v.view()) ==> (res matches Ok(h) && h.raw.view() == encode(v.view())
                && fresh_own(rc_pre, rc_post, h.raw))
            &&& !val_nul_free(v.view()) ==> res == Err::<OwnedValueRef, ExecutionError>(
                ExecutionError::Conversion(ValueError::StringWithZeroBytes),
            ) && rolled_back(rc_pre, rc_post)
        }
    }
}

/// How one dispatch outcome surfaces to the engine-side caller of a native
/// function: a success is handed back as an owned handle; any failure is
/// raised as a thrown script exception whose payload is the failure's
/// message — the only failure-signaling channel across this boundary.
pub open spec fn invoked_outcome(
    inner: Result<Result<JsValue, String>, ValueError>,
    res: Result<OwnedValueRef, ExecutionError>,
    rc_pre: Seq<u64>,
    rc_post: Seq<u64>,
) -> bool {
    match inner {
        Err(ve) => (res matches Err(ExecutionError::Exception(v)) && v.view() == JsVal::Str(
            ve.message_spec(),
        )) && rc_post == rc_pre,
        Ok(Err(m)) => (res matches Err(ExecutionError::Exception(v)) && v.view() == JsVal::Str(
            m@,
        )) && rc_post == rc_pre,
        Ok(Ok(out)) => {
            &&& val_nul_free(out.view()) ==> (res matches Ok(h) && h.raw.view() == encode(
                out.view(),
            ) && fresh_own(rc_pre, rc_post, h.raw))
            &&& !val_nul_free(out.view()) ==> (res matches Err(ExecutionError::Exception(v))
                && v.view() == JsVal::Str(ValueError::StringWithZeroBytes.message_spec()))
                && rolled_back(rc_pre, rc_post)
        }
    }
}

impl<C: Callback> ContextWrapper<C> {
    /// Every callback in the registry accepts every argument value, as
    /// registration demands: each parameter of a registered host function
    /// is constructible from the canonical value model.
    pub open spec fn registry_wf(&self) -> bool {
        forall|i: int| 0 <= i < self.callbacks@.len() ==> (#[trigger] self.callbacks@[i]).wf()
    }

    /// Executes the callback at the given registry index on raw arguments
    /// handed in by the engine. The argument array stays owned by the
    /// engine and is never freed here. Each argument is deserialized, the
    /// callback runs, and a produced value is serialized into a fresh owned
    /// handle.
    pub fn exec_callback(&mut self, args: &Vec<OwnedValueRef>, index: usize) -> (res: Result<
        OwnedValueRef,
        ExecutionError,
    >)
        requires
            index < old(self).callbacks@.len(),
            old(self).callbacks@[index as int].wf(),
        ensures
            final(self).engine.staged == old(self).engine.staged,
            final(self).engine.pending == old(self).engine.pending,
            final(self).globals == old(self).globals,
            final(self).callbacks == old(self).callbacks,
            ({
                let rs = raw_views_of(raws_of(args@));
                let cb = old(self).callbacks@[index as int];
                match crate::raw::decode_list(rs) {
                    Err(m) => (res matches Err(ExecutionError::Conversion(ve)) && ve matches
                        ValueError::Internal(ms) && ms@ == m) && final(self).engine.rc@ == old(
                        self,
                    ).engine.rc@,
                    Ok(vs) => {
                        &&& vs.len() != cb.arity_spec() ==> (res matches Err(
                            ExecutionError::Internal(m2),
                        ) && m2@ == crate::text::invalid_count_msg(cb.arity_spec(), vs.len()))
                            && final(self).engine.rc@ == old(self).engine.rc@
                        &&& vs.len() == cb.arity_spec() ==> exists|
                            argv: Seq<JsValue>,
                            inner: Result<Result<JsValue, String>, ValueError>,
                        |
                            crate::value::views_of(argv) == vs && #[trigger] cb.call_post(
                                argv,
                                inner,
                            ) && callback_outcome(
                                inner,
                                res,
                                old(self).engine.rc@,
                                final(self).engine.rc@,
                            )
                    },
                }
            }),
    {
        let ghost rs = raw_views_of(raws_of(args@));
        proof {
            crate::raw::lemma_raw_views_of(raws_of(args@));
        }
        let mut vals: Vec<JsValue> = Vec::new();
        let mut j: usize = 0;
        while j < args.len()
            invariant
                j <= args.len(),
                vals@.len() == j,
                *self == *old(self),
                index < self.callbacks@.len(),
                rs == raw_views_of(raws_of(args@)),
                rs.len() == args@.len(),
                forall|i: int| 0 <= i < args@.len() ==> rs[i] == args@[i].raw.view(),
                forall|i: int|
                    0 <= i < j ==> #[trigger] crate::raw::decode(rs[i]) is Ok && vals@[i].view()
                        == crate::raw::decode(rs[i])->Ok_0,
            decreases args.len() - j,
        {
            match args[j].raw.to_value() {
                Ok(v) => {
                    vals.push(v);
                }
                Err(e) => {
                    proof {
                        crate::raw::lemma_decode_list_err(rs, j as int);
                    }
                    return Err(ExecutionError::Conversion(e));
                }
            }
            j = j + 1;
        }
        proof {
            crate::raw::lemma_decode_list_ok(rs);
            crate::value::lemma_views_of(vals@);
            assert(crate::value::views_of(vals@) =~= crate::raw::decode_list(rs)->Ok_0);
        }
        let ghost argv = vals@;
        let inner = self.callbacks[index].call(vals);
        let ghost g_inner = inner;
        match inner {
            Ok(inner2) => match inner2 {
                Ok(v) => match self.engine.serialize(&v) {
                    Ok(r) => {
                        proof {
                            if argv.len() == old(self).callbacks@[index as int].arity_spec() {
                                assert(old(self).callbacks@[index as int].call_post(
                                    argv,
                                    g_inner,
                                ));
                            }
                        }
                        Ok(OwnedValueRef::new(r))
                    }
                    Err(er) => {
                        proof {
                            if argv.len() == old(self).callbacks@[index as int].arity_spec() {
                                assert(old(self).callbacks@[index as int].call_post(
                                    argv,
                                    g_inner,
                                ));
                            }
                        }
                        Err(ExecutionError::Conversion(er))
                    }
                },
                Err(m) => {
                    proof {
                        if argv.len() == old(self).callbacks@[index as int].arity_spec() {
                            assert(old(self).callbacks@[index as int].call_post(argv, g_inner));
                        }
                    }
                    Err(ExecutionError::Internal(m))
                }
            },
            Err(ve) => {
                proof {
                    if argv.len() == old(self).callbacks@[index as int].arity_spec() {
                        assert(old(self).callbacks@[index as int].call_post(argv, g_inner));
                    }
                }
                Err(ExecutionError::Conversion(ve))
            }
        }
    }

    /// Calls an engine callable with already-owned argument values and no
    /// implicit receiver. The only callables in the model are the native
    /// functions made by [`ContextWrapper::add_callback`]: the engine
    /// dispatches to the registered callback, and a failure inside the
    /// dispatch is raised as a script-level thrown exception carrying the
    /// failure's message. The argument handles stay owned by the caller.
    pub fn call_function(&mut self, function: &OwnedValueRef, args: &Vec<OwnedValueRef>) -> (res:
        Result<OwnedValueRef, ExecutionError>)
        requires
            old(self).registry_wf(),
        ensures
            final(self).engine.staged == old(self).engine.staged,
            final(self).engine.pending == old(self).engine.pending,
            final(self).globals == old(self).globals,
            final(self).callbacks == old(self).callbacks,
            ({
                let rs = raw_views_of(raws_of(args@));
                if !(function.raw matches RawValue::Func(_, ix, _) && ix
                    < old(self).callbacks@.len()) {
                    (res matches Err(ExecutionError::Exception(v)) && v.view() == JsVal::Str(
                        "not a function"@,
                    )) && final(self).engine.rc@ == old(self).engine.rc@
                } else {
                    let cb = old(self).callbacks@[function.raw->Func_1 as int];
                    match crate::raw::decode_list(rs) {
                        Err(m) => (res matches Err(ExecutionError::Exception(v)) && v.view()
                            == JsVal::Str(m)) && final(self).engine.rc@ == old(self).engine.rc@,
                        Ok(vs) => {
                            &&& vs.len() != cb.arity_spec() ==> (res matches Err(
                                ExecutionError::Exception(v),
                            ) && v.view() == JsVal::Str(
                                crate::text::invalid_count_msg(cb.arity_spec(), vs.len()),
                            )) && final(self).engine.rc@ == old(self).engine.rc@
                            &&& vs.len() == cb.arity_spec() ==> exists|
                                argv: Seq<JsValue>,
                                inner: Result<Result<JsValue, String>, ValueError>,
                            |
                                crate::value::views_of(argv) == vs && #[trigger] cb.call_post(
                                    argv,
                                    inner,
                                ) && invoked_outcome(
                                    inner,
                                    res,
                                    old(self).engine.rc@,
                                    final(self).engine.rc@,
                                )
                        },
                    }
                }
            }),
    {
        match &function.raw {
            RawValue::Func(_, ix, _) => {
                let index = *ix;
                if index < self.callbacks.len() {
                    let ghost rc0 = self.engine.rc@;
                    let ghost rs = raw_views_of(raws_of(args@));
                    let ghost cb = self.callbacks@[index as int];
                    proof {
                        assert(old(self).callbacks@[index as int].wf());
                    }
                    let r0 = self.exec_callback(args, index);
                    let ghost g_r0 = r0;
                    let ghost rc_mid = self.engine.rc@;
                    match r0 {
                        Ok(h) => {
                            proof {
                                let (argv, inner) = choose|
                                    argv: Seq<JsValue>,
                                    inner: Result<Result<JsValue, String>, ValueError>,
                                |
                                    crate::value::views_of(argv)
                                        == crate::raw::decode_list(rs)->Ok_0 && #[trigger]
                                    cb.call_post(argv, inner) && callback_outcome(
                                        inner,
                                        g_r0,
                                        rc0,
                                        rc_mid,
                                    );
                                assert(cb.call_post(argv, inner));
                            }
                            Ok(h)
                        }
                        Err(e) => {
                            let msg = e.message();
                            proof {
                                if crate::raw::decode_list(rs) is Ok && crate::raw::decode_list(
                                    rs,
                                )->Ok_0.len() == cb.arity_spec() {
                                    let (argv, inner) = choose|
                                        argv: Seq<JsValue>,
                                        inner: Result<Result<JsValue, String>, ValueError>,
                                    |
                                        crate::value::views_of(argv)
                                            == crate::raw::decode_list(rs)->Ok_0 && #[trigger]
                                        cb.call_post(argv, inner) && callback_outcome(
                                            inner,
                                            g_r0,
                                            rc0,
                                            rc_mid,
                                        );
                                    assert(cb.call_post(argv, inner));
                                    assert(invoked_outcome(
                                        inner,
                                        Err::<OwnedValueRef, ExecutionError>(
                                            ExecutionError::Exception(
                                                JsValue::String(msg),
                                            ),
                                        ),
                                        rc0,
                                        rc_mid,
                                    ));
                                }
                            }
                            Err(ExecutionError::Exception(JsValue::String(msg)))
                        }
                    }
                } else {
                    Err(
                        ExecutionError::Exception(
                            JsValue::String(String::from_str("not a function")),
                        ),
                    )
                }
            }
            _ => Err(
                ExecutionError::Exception(JsValue::String(String::from_str("not a function"))),
            ),
        }
    }

    /// Registers a host function as a script-callable native: the callback
    /// joins the registry, which never shrinks, a native-function value
    /// bound to its registry slot is materialized, and that value is
    /// installed as a named property of the global object. A name with an
    /// embedded NUL is rejected, the materialized value released; the
    /// registry entry stays, as the registry is append-only.
    pub fn add_callback(&mut self, name: &str, callback: C) -> (res: Result<(), ExecutionError>)
        requires
            callback.wf(),
        ensures
            final(self).engine.staged == old(self).engine.staged,
            final(self).engine.pending == old(self).engine.pending,
            final(self).callbacks@ == old(self).callbacks@.push(callback),
            old(self).registry_wf() ==> final(self).registry_wf(),
            seq_nul_free(name@) ==> ({
                let gpre = old(self).globals@;
                let gpost = final(self).globals@;
                &&& res is Ok
                &&& gpost.len() == gpre.len() + 1
                &&& (forall|i: int| 0 <= i < gpre.len() ==> gpost[i] == gpre[i])
                &&& gpost.last().0@ == name@
                &&& gpost.last().1 == RawValue::Func(
                    old(self).engine.rc@.len() as usize,
                    old(self).callbacks@.len() as usize,
                    callback.arity_spec() as usize,
                )
                &&& final(self).engine.rc@ == old(self).engine.rc@.push(1u64)
            }),
            !seq_nul_free(name@) ==> (res matches Err(ExecutionError::Conversion(ve)) && ve
                is StringWithZeroBytes) && final(self).globals == old(self).globals
                && rolled_back(old(self).engine.rc@, final(self).engine.rc@),
    {
        let argcount = callback.argument_count();
        let index = self.callbacks.len();
        let ghost cbs_pre = self.callbacks@;
        self.callbacks.push(callback);
        proof {
            if (forall|i: int| 0 <= i < cbs_pre.len() ==> (#[trigger] cbs_pre[i]).wf()) {
                assert forall|i: int|
                    0 <= i < self.callbacks@.len() implies (#[trigger] self.callbacks@[i]).wf() by {
                    if i < cbs_pre.len() {
                        assert(self.callbacks@[i] == cbs_pre[i]);
                        assert(cbs_pre[i].wf());
                    }
                }
            }
        }
        let id = self.engine.alloc_cell();
        let func = RawValue::Func(id, index, argcount);
        if !str_is_nul_free(name) {
            self.engine.release(&func);
            proof {
                assert(func.id_set() =~= Set::empty().insert(id as int));
                assert(rolled_back(old(self).engine.rc@, self.engine.rc@));
            }
            return Err(ExecutionError::Conversion(ValueError::StringWithZeroBytes));
        }
        self.globals.push((String::from_str(name), func));
        Ok(())
    }

    /// Returns the global object as an object view. The view refers to the
    /// engine's one global object — property reads and writes through it go
    /// to the context's global table — and owns a fresh heap cell for the
    /// reference itself, as the engine raises the global object's reference
    /// count when handing it out. In the model this cannot fail.
    pub fn global(&mut self) -> (res: Result<OwnedObjectRef, ExecutionError>)
        ensures
            final(self).engine.staged == old(self).engine.staged,
            final(self).engine.pending == old(self).engine.pending,
            final(self).globals == old(self).globals,
            final(self).callbacks == old(self).callbacks,
            res matches Ok(o) && o.value.raw == RawValue::GlobalObj(
                old(self).engine.rc@.len() as usize,
            ) && final(self).engine.rc@ == old(self).engine.rc@.push(1u64),
    {
        let id = self.engine.alloc_cell();
        Ok(OwnedObjectRef { value: OwnedValueRef::new(RawValue::GlobalObj(id)) })
    }
}

/// The property table an object view reads and writes: the context's
/// global table for the global-object reference, a plain object's own
/// table otherwise; other values carry no named properties.
pub open spec fn props_of(r: RawValue, globals: Seq<(String, RawValue)>) -> Seq<
    (String, RawValue),
> {
    match r {
        RawValue::GlobalObj(_) => globals,
        RawValue::Obj(_, ps) => ps@,
        _ => Seq::empty(),
    }
}

/// A view of an engine object: an owned handle whose value is known to
/// carry the object tag, with named property accessors.
#[derive(Debug)]
pub struct OwnedObjectRef {
    /// The owned handle to the object value.
    pub value: OwnedValueRef,
}

/// Finds the last binding of a name in a property table.
fn lookup_prop<'a>(ps: &'a Vec<(String, RawValue)>, name: &str) -> (res: Option<&'a RawValue>)
    ensures
        match res {
            Some(v) => crate::raw::raw_lookup(ps@, name@) == Some(*v),
            None => crate::raw::raw_lookup(ps@, name@) is None,
        },
{
    let name_s = String::from_str(name);
    let mut j: usize = ps.len();
    proof {
        assert(ps@.subrange(0, ps@.len() as int) =~= ps@);
    }
    while j > 0
        invariant
            j <= ps@.len(),
            name_s@ == name@,
            crate::raw::raw_lookup(ps@, name@) == crate::raw::raw_lookup(
                ps@.subrange(0, j as int),
                name@,
            ),
        decreases j,
    {
        j = j - 1;
        proof {
            assert(ps@.subrange(0, j + 1 as int).last() == ps@[j as int]);
            assert(ps@.subrange(0, j + 1 as int).drop_last() =~= ps@.subrange(0, j as int));
        }
        if ps[j].0 == name_s {
            return Some(&ps[j].1);
        }
    }
    None
}

impl OwnedObjectRef {
    /// Refines an owned handle into an object view; a handle whose value is
    /// not object-tagged is rejected, and the rejection hands the handle
    /// back so that its cells can still be released — no path leaks it.
    pub fn new(value: OwnedValueRef) -> (res: Result<
        OwnedObjectRef,
        (ValueError, OwnedValueRef),
    >)
        ensures
            value.raw.tag_spec() == TAG_OBJECT ==> (res matches Ok(o) && o.value == value),
            value.raw.tag_spec() != TAG_OBJECT ==> (res matches Err(e) && (e.0 matches
                ValueError::Internal(m) && m@ == "Expected an object"@) && e.1 == value),
    {
        if value.raw.tag() != TAG_OBJECT {
            Err((ValueError::Internal(String::from_str("Expected an object")), value))
        } else {
            Ok(OwnedObjectRef { value })
        }
    }

    /// Fetches a named property as a fresh owned handle, as the engine
    /// hands out property values with their reference count raised. On the
    /// global-object view the read goes to the context's global table. A
    /// name that resolves to nothing or to the undefined value is reported
    /// as the named-property failure; the modeled fetch itself cannot
    /// raise.
    pub fn property<C: Callback>(&self, ctx: &mut ContextWrapper<C>, name: &str) -> (res: Result<
        OwnedValueRef,
        ExecutionError,
    >)
        ensures
            final(ctx).engine.staged == old(ctx).engine.staged,
            final(ctx).engine.pending == old(ctx).engine.pending,
            final(ctx).globals == old(ctx).globals,
            final(ctx).callbacks == old(ctx).callbacks,
            !seq_nul_free(name@) ==> (res matches Err(ExecutionError::Conversion(ve)) && ve
                is StringWithZeroBytes) && final(ctx).engine.rc@ == old(ctx).engine.rc@,
            seq_nul_free(name@) ==> match crate::raw::raw_lookup(
                props_of(self.value.raw, old(ctx).globals@),
                name@,
            ) {
                None => (res matches Err(ExecutionError::Internal(m)) && m@
                    == crate::text::property_not_found_msg(name@)) && final(ctx).engine.rc@
                    == old(ctx).engine.rc@,
                Some(v) => if v is Undefined {
                    (res matches Err(ExecutionError::Internal(m)) && m@
                        == crate::text::property_not_found_msg(name@)) && final(ctx).engine.rc@
                        == old(ctx).engine.rc@
                } else {
                    res matches Ok(h) && h.raw.view() == v.view() && fresh_own(
                        old(ctx).engine.rc@,
                        final(ctx).engine.rc@,
                        h.raw,
                    )
                },
            },
    {
        if !str_is_nul_free(name) {
            return Err(ExecutionError::Conversion(ValueError::StringWithZeroBytes));
        }
        match &self.value.raw {
            RawValue::Obj(_, props) => {
                match lookup_prop(props, name) {
                    Some(v) => match v {
                        RawValue::Undefined => Err(
                            ExecutionError::Internal(
                                crate::text::property_not_found_string(name),
                            ),
                        ),
                        _ => {
                            let c = ctx.engine.dup(v);
                            Ok(OwnedValueRef::new(c))
                        }
                    },
                    None => Err(
                        ExecutionError::Internal(crate::text::property_not_found_string(name)),
                    ),
                }
            }
            RawValue::GlobalObj(_) => {
                match lookup_prop(&ctx.globals, name) {
                    Some(v) => match v {
                        RawValue::Undefined => Err(
                            ExecutionError::Internal(
                                crate::text::property_not_found_string(name),
                            ),
                        ),
                        _ => {
                            let c = ctx.engine.dup(v);
                            Ok(OwnedValueRef::new(c))
                        }
                    },
                    None => Err(
                        ExecutionError::Internal(crate::text::property_not_found_string(name)),
                    ),
                }
            }
            _ => {
                proof {
                    assert(props_of(self.value.raw, old(ctx).globals@) =~= Seq::<
                        (String, RawValue),
                    >::empty());
                }
                Err(ExecutionError::Internal(crate::text::property_not_found_string(name)))
            }
        }
    }

    /// Serializes a host value and stores it under the given name. On the
    /// global-object view the write goes to the context's global table.
    /// Later writes of a name overwrite earlier ones when read back. A
    /// failure while serializing or naming releases the serialized value; a
    /// store into a value without named properties fails as the engine's
    /// store failure.
    pub fn set_property<C: Callback>(
        &mut self,
        ctx: &mut ContextWrapper<C>,
        name: &str,
        value: JsValue,
    ) -> (res: Result<(), ExecutionError>)
        ensures
            final(ctx).engine.staged == old(ctx).engine.staged,
            final(ctx).engine.pending == old(ctx).engine.pending,
            final(ctx).callbacks == old(ctx).callbacks,
            ({
                let pre = old(ctx).engine.rc@;
                let post = final(ctx).engine.rc@;
                if !val_nul_free(value.view()) {
                    (res matches Err(ExecutionError::Conversion(ve)) && ve
                        is StringWithZeroBytes) && rolled_back(pre, post) && *final(self)
                        == *old(self) && final(ctx).globals == old(ctx).globals
                } else if !seq_nul_free(name@) {
                    (res matches Err(ExecutionError::Conversion(ve)) && ve
                        is StringWithZeroBytes) && rolled_back(pre, post) && *final(self)
                        == *old(self) && final(ctx).globals == old(ctx).globals
                } else {
                    match old(self).value.raw {
                        RawValue::GlobalObj(_) => {
                            let gpre = old(ctx).globals@;
                            let gpost = final(ctx).globals@;
                            &&& res is Ok
                            &&& *final(self) == *old(self)
                            &&& gpost.len() == gpre.len() + 1
                            &&& forall|i: int| 0 <= i < gpre.len() ==> gpost[i] == gpre[i]
                            &&& gpost.last().0@ == name@
                            &&& gpost.last().1.view() == encode(value.view())
                            &&& (crate::raw::raw_lookup(gpost, name@) matches Some(v) && v.view()
                                == encode(value.view()))
                            &&& fresh_own(pre, post, gpost.last().1)
                        }
                        RawValue::Obj(_, _) => {
                            let ps_pre = crate::raw::obj_props(old(self).value.raw);
                            let ps_post = crate::raw::obj_props(final(self).value.raw);
                            &&& res is Ok
                            &&& final(ctx).globals == old(ctx).globals
                            &&& final(self).value.raw is Obj
                            &&& final(self).value.raw->Obj_0 == old(self).value.raw->Obj_0
                            &&& ps_post.len() == ps_pre.len() + 1
                            &&& forall|i: int| 0 <= i < ps_pre.len() ==> ps_post[i] == ps_pre[i]
                            &&& ps_post.last().0@ == name@
                            &&& ps_post.last().1.view() == encode(value.view())
                            &&& (crate::raw::raw_lookup(ps_post, name@) matches Some(v) && v.view()
                                == encode(value.view()))
                            &&& fresh_own(pre, post, ps_post.last().1)
                        }
                        _ => {
                            (res matches Err(ExecutionError::Exception(v)) && v.view()
                                == JsVal::Str("Could not set property"@)) && rolled_back(
                                pre,
                                post,
                            ) && *final(self) == *old(self) && final(ctx).globals == old(
                                ctx,
                            ).globals
                        }
                    }
                }
            }),
    {
        let qval = match ctx.engine.serialize(&value) {
            Ok(r) => r,
            Err(er) => {
                return Err(ExecutionError::Conversion(er));
            }
        };
        if !str_is_nul_free(name) {
            ctx.engine.release(&qval);
            proof {
                assert(rolled_back(old(ctx).engine.rc@, ctx.engine.rc@));
            }
            return Err(ExecutionError::Conversion(ValueError::StringWithZeroBytes));
        }
        let is_global = match &self.value.raw {
            RawValue::GlobalObj(_) => true,
            _ => false,
        };
        if is_global {
            let key = String::from_str(name);
            let ghost gprev = ctx.globals@;
            let ghost kv = (key, qval);
            ctx.globals.push((key, qval));
            proof {
                assert(gprev.push(kv).last() == kv);
                assert(gprev.push(kv).drop_last() =~= gprev);
            }
            return Ok(());
        }
        let mut tmp = RawValue::Null;
        core::mem::swap(&mut tmp, &mut self.value.raw);
        match tmp {
            RawValue::Obj(id, props) => {
                let mut props = props;
                let ghost prev = props@;
                let key = String::from_str(name);
                let ghost kv = (key, qval);
                props.push((key, qval));
                self.value.raw = RawValue::Obj(id, props);
                proof {
                    assert(prev.push(kv).last() == kv);
                    assert(prev.push(kv).drop_last() =~= prev);
                }
                Ok(())
            }
            other => {
                self.value.raw = other;
                ctx.engine.release(&qval);
                proof {
                    assert(rolled_back(old(ctx).engine.rc@, ctx.engine.rc@));
                }
                Err(
                    ExecutionError::Exception(
                        JsValue::String(String::from_str("Could not set property")),
                    ),
                )
            }
        }
    }
}

} // verus!

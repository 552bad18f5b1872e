//! Arity-polymorphic adaptation of host functions into script-callable
//! natives: a closed family of adapters for zero to three arguments behind
//! one capability interface.

use crate::text::{invalid_count_msg, invalid_count_string};
use crate::value::{JsValue, ValueError};
use vstd::prelude::*;

verus! {

/// A host function or closure that can be called from the engine.
///
/// The outer result signals an infrastructure failure while converting
/// values; the inner result distinguishes a user-visible failure (an arity
/// mismatch message or a business-logic error string) from a success
/// payload.
pub trait Callback: Sized {
    /// The declared number of arguments.
    spec fn arity_spec(&self) -> nat;

    /// The callback accepts every argument value: each parameter is
    /// constructible from the canonical value model, so the wrapped host
    /// function can run on any input.
    spec fn wf(&self) -> bool;

    /// What [`Callback::call`] returns when the argument count matches: an
    /// outcome the wrapped host function admits.
    spec fn call_post(
        &self,
        args: Seq<JsValue>,
        r: Result<Result<JsValue, String>, ValueError>,
    ) -> bool;

    /// The declared number of arguments.
    fn argument_count(&self) -> (n: usize)
        ensures
            n as nat == self.arity_spec(),
    ;

    /// Runs the host function on the given arguments. A call with the wrong
    /// number of arguments returns exactly the script-visible arity
    /// message, never a crash.
    fn call(&self, args: Vec<JsValue>) -> (r: Result<Result<JsValue, String>, ValueError>)
        requires
            self.wf(),
        ensures
            args@.len() != self.arity_spec() ==> (r matches Ok(inner) && inner matches Err(m)
                && m@ == invalid_count_msg(self.arity_spec(), args@.len())),
            args@.len() == self.arity_spec() ==> self.call_post(args@, r),
    ;
}

/// Adapts a host function of no arguments.
pub struct Func0<F: Fn() -> Result<JsValue, String>> {
    /// The wrapped host function.
    pub f: F,
}

impl<F: Fn() -> Result<JsValue, String>> Func0<F> {
    /// Wraps a host function that can run on any input.
    pub fn new(f: F) -> (c: Self)
        requires
            call_requires(f, ()),
        ensures
            c.f == f,
            c.wf(),
    {
        Func0 { f }
    }
}

impl<F: Fn() -> Result<JsValue, String>> Callback for Func0<F> {
    open spec fn arity_spec(&self) -> nat {
        0
    }

    open spec fn wf(&self) -> bool {
        call_requires(self.f, ())
    }

    open spec fn call_post(
        &self,
        args: Seq<JsValue>,
        r: Result<Result<JsValue, String>, ValueError>,
    ) -> bool {
        exists|out: Result<JsValue, String>|
            #[trigger] call_ensures(self.f, (), out) && r == Ok::<
                Result<JsValue, String>,
                ValueError,
            >(out)
    }

    fn argument_count(&self) -> (n: usize) {
        0
    }

    fn call(&self, args: Vec<JsValue>) -> (r: Result<Result<JsValue, String>, ValueError>) {
        if args.len() != 0 {
            Ok(Err(invalid_count_string(0, args.len())))
        } else {
            let out = (self.f)();
            proof {
                assert(call_ensures(self.f, (), out));
            }
            Ok(out)
        }
    }
}

/// Adapts a host function of one argument.
pub struct Func1<F: Fn(JsValue) -> Result<JsValue, String>> {
    /// The wrapped host function.
    pub f: F,
}

impl<F: Fn(JsValue) -> Result<JsValue, String>> Func1<F> {
    /// Wraps a host function that can run on any input.
    pub fn new(f: F) -> (c: Self)
        requires
            forall|a: JsValue| #[trigger] call_requires(f, (a,)),
        ensures
            c.f == f,
            c.wf(),
    {
        Func1 { f }
    }
}

impl<F: Fn(JsValue) -> Result<JsValue, String>> Callback for Func1<F> {
    open spec fn arity_spec(&self) -> nat {
        1
    }

    open spec fn wf(&self) -> bool {
        forall|a: JsValue| #[trigger] call_requires(self.f, (a,))
    }

    open spec fn call_post(
        &self,
        args: Seq<JsValue>,
        r: Result<Result<JsValue, String>, ValueError>,
    ) -> bool {
        exists|out: Result<JsValue, String>|
            #[trigger] call_ensures(self.f, (args[0],), out) && r == Ok::<
                Result<JsValue, String>,
                ValueError,
            >(out)
    }

    fn argument_count(&self) -> (n: usize) {
        1
    }

    fn call(&self, args: Vec<JsValue>) -> (r: Result<Result<JsValue, String>, ValueError>) {
        if args.len() != 1 {
            Ok(Err(invalid_count_string(1, args.len())))
        } else {
            let mut args = args;
            let a0 = args.remove(0);
            let out = (self.f)(a0);
            proof {
                assert(call_ensures(self.f, (a0,), out));
            }
            Ok(out)
        }
    }
}

/// Adapts a host function of two arguments.
pub struct Func2<F: Fn(JsValue, JsValue) -> Result<JsValue, String>> {
    /// The wrapped host function.
    pub f: F,
}

impl<F: Fn(JsValue, JsValue) -> Result<JsValue, String>> Func2<F> {
    /// Wraps a host function that can run on any input.
    pub fn new(f: F) -> (c: Self)
        requires
            forall|a: JsValue, b: JsValue| #[trigger] call_requires(f, (a, b)),
        ensures
            c.f == f,
            c.wf(),
    {
        Func2 { f }
    }
}

impl<F: Fn(JsValue, JsValue) -> Result<JsValue, String>> Callback for Func2<F> {
    open spec fn arity_spec(&self) -> nat {
        2
    }

    open spec fn wf(&self) -> bool {
        forall|a: JsValue, b: JsValue| #[trigger] call_requires(self.f, (a, b))
    }

    open spec fn call_post(
        &self,
        args: Seq<JsValue>,
        r: Result<Result<JsValue, String>, ValueError>,
    ) -> bool {
        exists|out: Result<JsValue, String>|
            #[trigger] call_ensures(self.f, (args[0], args[1]), out) && r == Ok::<
                Result<JsValue, String>,
                ValueError,
            >(out)
    }

    fn argument_count(&self) -> (n: usize) {
        2
    }

    fn call(&self, args: Vec<JsValue>) -> (r: Result<Result<JsValue, String>, ValueError>) {
        if args.len() != 2 {
            Ok(Err(invalid_count_string(2, args.len())))
        } else {
            let mut args = args;
            let a1 = args.remove(1);
            let a0 = args.remove(0);
            let out = (self.f)(a0, a1);
            proof {
                assert(call_ensures(self.f, (a0, a1), out));
            }
            Ok(out)
        }
    }
}

/// Adapts a host function of three arguments.
pub struct Func3<F: Fn(JsValue, JsValue, JsValue) -> Result<JsValue, String>> {
    /// The wrapped host function.
    pub f: F,
}

impl<F: Fn(JsValue, JsValue, JsValue) -> Result<JsValue, String>> Func3<F> {
    /// Wraps a host function that can run on any input.
    pub fn new(f: F) -> (c: Self)
        requires
            forall|a: JsValue, b: JsValue, c: JsValue| #[trigger] call_requires(f, (a, b, c)),
        ensures
            c.f == f,
            c.wf(),
    {
        Func3 { f }
    }
}

impl<F: Fn(JsValue, JsValue, JsValue) -> Result<JsValue, String>> Callback for Func3<F> {
    open spec fn arity_spec(&self) -> nat {
        3
    }

    open spec fn wf(&self) -> bool {
        forall|a: JsValue, b: JsValue, c: JsValue| #[trigger] call_requires(self.f, (a, b, c))
    }

    open spec fn call_post(
        &self,
        args: Seq<JsValue>,
        r: Result<Result<JsValue, String>, ValueError>,
    ) -> bool {
        exists|out: Result<JsValue, String>|
            #[trigger] call_ensures(self.f, (args[0], args[1], args[2]), out) && r == Ok::<
                Result<JsValue, String>,
                ValueError,
            >(out)
    }

    fn argument_count(&self) -> (n: usize) {
        3
    }

    fn call(&self, args: Vec<JsValue>) -> (r: Result<Result<JsValue, String>, ValueError>) {
        if args.len() != 3 {
            Ok(Err(invalid_count_string(3, args.len())))
        } else {
            let mut args = args;
            let a2 = args.remove(2);
            let a1 = args.remove(1);
            let a0 = args.remove(0);
            let out = (self.f)(a0, a1, a2);
            proof {
                assert(call_ensures(self.f, (a0, a1, a2), out));
            }
            Ok(out)
        }
    }
}

/// The empty callback set: a placeholder callback type for contexts that
/// register no host function.
pub struct NoCallbacks;

impl Callback for NoCallbacks {
    open spec fn arity_spec(&self) -> nat {
        0
    }

    open spec fn wf(&self) -> bool {
        true
    }

    open spec fn call_post(
        &self,
        args: Seq<JsValue>,
        r: Result<Result<JsValue, String>, ValueError>,
    ) -> bool {
        r == Ok::<Result<JsValue, String>, ValueError>(Ok::<JsValue, String>(JsValue::Null))
    }

    fn argument_count(&self) -> (n: usize) {
        0
    }

    fn call(&self, args: Vec<JsValue>) -> (r: Result<Result<JsValue, String>, ValueError>) {
        if args.len() != 0 {
            Ok(Err(invalid_count_string(0, args.len())))
        } else {
            Ok(Ok(JsValue::Null))
        }
    }
}

} // verus!

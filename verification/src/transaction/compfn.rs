//! Calling the compensation function of an operation with the operation's
//! result and input, each given as a tuple (or as anything, for a unit).

use vstd::prelude::*;

verus! {

/// A value that can stand for `T`: the tuple `T` itself, or, for `T = ()`, any value.
pub trait TupleOrUnit<T>: Sized {
    spec fn spec_into(self) -> T;

    fn into(self) -> (r: T)
        ensures
            r == self.spec_into(),
    ;
}

impl<X> TupleOrUnit<()> for X {
    open spec fn spec_into(self) -> () {
        ()
    }

    fn into(self) {
    }
}

impl<A> TupleOrUnit<(A,)> for (A,) {
    open spec fn spec_into(self) -> (A,) {
        self
    }

    fn into(self) -> (A,) {
        self
    }
}

impl<A, B> TupleOrUnit<(A, B)> for (A, B) {
    open spec fn spec_into(self) -> (A, B) {
        self
    }

    fn into(self) -> (A, B) {
        self
    }
}

impl<A, B, C> TupleOrUnit<(A, B, C)> for (A, B, C) {
    open spec fn spec_into(self) -> (A, B, C) {
        self
    }

    fn into(self) -> (A, B, C) {
        self
    }
}

impl<A, B, C, D> TupleOrUnit<(A, B, C, D)> for (A, B, C, D) {
    open spec fn spec_into(self) -> (A, B, C, D) {
        self
    }

    fn into(self) -> (A, B, C, D) {
        self
    }
}

impl<A, B, C, D, G> TupleOrUnit<(A, B, C, D, G)> for (A, B, C, D, G) {
    open spec fn spec_into(self) -> (A, B, C, D, G) {
        self
    }

    fn into(self) -> (A, B, C, D, G) {
        self
    }
}

impl<A, B, C, D, G, H> TupleOrUnit<(A, B, C, D, G, H)> for (A, B, C, D, G, H) {
    open spec fn spec_into(self) -> (A, B, C, D, G, H) {
        self
    }

    fn into(self) -> (A, B, C, D, G, H) {
        self
    }
}

/// A function that undoes an operation, given the operation's result and input.
pub trait CompensationFunction<In, Out, E>: Sized {
    /// Whether the function may be called with this result and input.
    spec fn call_requires(&self, result: Out, input: In) -> bool;

    /// Whether `r` is a possible outcome of calling it with them.
    spec fn call_ensures(&self, result: Out, input: In, r: Result<(), E>) -> bool;

    fn call<R: TupleOrUnit<Out>, I: TupleOrUnit<In>>(self, result: R, input: I) -> (r: Result<
        (),
        E,
    >)
        requires
            self.call_requires(result.spec_into(), input.spec_into()),
        ensures
            self.call_ensures(result.spec_into(), input.spec_into(), r),
    ;
}

/// The error of the closure, wrapped in a 1-tuple.
pub open spec fn wrap_err<E>(r: Result<(), E>) -> Result<(), (E,)> {
    match r {
        Ok(()) => Ok(()),
        Err(e) => Err((e,)),
    }
}

/// A compensation that needs neither result nor input.
impl<F, E> CompensationFunction<(), (), (E,)> for F where F: FnOnce() -> Result<(), E> {
    open spec fn call_requires(&self, result: (), input: ()) -> bool {
        self.requires(())
    }

    open spec fn call_ensures(&self, result: (), input: (), r: Result<(), (E,)>) -> bool {
        exists|x: Result<(), E>| self.ensures((), x) && r == wrap_err(x)
    }

    fn call<R: TupleOrUnit<()>, I: TupleOrUnit<()>>(self, result: R, input: I) -> (r: Result<
        (),
        (E,),
    >) {
        let x = self();
        let r = match x {
            Ok(()) => Ok(()),
            Err(e) => Err((e,)),
        };
        assert(r == wrap_err(x));
        r
    }
}

/// A compensation that takes the operation's result only.
impl<F, Out, E> CompensationFunction<(), (Out,), (E,)> for F where
    F: FnOnce(Out) -> Result<(), E>,
 {
    open spec fn call_requires(&self, result: (Out,), input: ()) -> bool {
        self.requires((result.0,))
    }

    open spec fn call_ensures(&self, result: (Out,), input: (), r: Result<(), (E,)>) -> bool {
        exists|x: Result<(), E>| self.ensures((result.0,), x) && r == wrap_err(x)
    }

    fn call<R: TupleOrUnit<(Out,)>, I: TupleOrUnit<()>>(self, result: R, input: I) -> (r:
        Result<(), (E,)>) {
        let (out,) = result.into();
        let x = self(out);
        let r = match x {
            Ok(()) => Ok(()),
            Err(e) => Err((e,)),
        };
        assert(r == wrap_err(x));
        r
    }
}

/// A compensation that takes the operation's result and its one input.
impl<F, A, Out, E> CompensationFunction<(A,), (Out,), (E,)> for F where
    F: FnOnce(Out, A) -> Result<(), E>,
 {
    open spec fn call_requires(&self, result: (Out,), input: (A,)) -> bool {
        self.requires((result.0, input.0))
    }

    open spec fn call_ensures(&self, result: (Out,), input: (A,), r: Result<(), (E,)>) -> bool {
        exists|x: Result<(), E>| self.ensures((result.0, input.0), x) && r == wrap_err(x)
    }

    fn call<R: TupleOrUnit<(Out,)>, I: TupleOrUnit<(A,)>>(self, result: R, input: I) -> (r:
        Result<(), (E,)>) {
        let (a,) = input.into();
        let (out,) = result.into();
        let x = self(out, a);
        let r = match x {
            Ok(()) => Ok(()),
            Err(e) => Err((e,)),
        };
        assert(r == wrap_err(x));
        r
    }
}

/// A compensation that takes the operation's result and its two inputs.
impl<F, A, B, Out, E> CompensationFunction<(A, B), (Out,), (E,)> for F where
    F: FnOnce(Out, A, B) -> Result<(), E>,
 {
    open spec fn call_requires(&self, result: (Out,), input: (A, B)) -> bool {
        self.requires((result.0, input.0, input.1))
    }

    open spec fn call_ensures(&self, result: (Out,), input: (A, B), r: Result<(), (E,)>) -> bool {
        exists|x: Result<(), E>| self.ensures((result.0, input.0, input.1), x) && r == wrap_err(x)
    }

    fn call<R: TupleOrUnit<(Out,)>, I: TupleOrUnit<(A, B)>>(self, result: R, input: I) -> (r:
        Result<(), (E,)>) {
        let (a, b) = input.into();
        let (out,) = result.into();
        let x = self(out, a, b);
        let r = match x {
            Ok(()) => Ok(()),
            Err(e) => Err((e,)),
        };
        assert(r == wrap_err(x));
        r
    }
}

/// A compensation that takes the operation's result and its three inputs.
impl<F, A, B, C, Out, E> CompensationFunction<(A, B, C), (Out,), (E,)> for F where
    F: FnOnce(Out, A, B, C) -> Result<(), E>,
 {
    open spec fn call_requires(&self, result: (Out,), input: (A, B, C)) -> bool {
        self.requires((result.0, input.0, input.1, input.2))
    }

    open spec fn call_ensures(&self, result: (Out,), input: (A, B, C), r: Result<(), (E,)>) -> bool {
        exists|x: Result<(), E>| self.ensures((result.0, input.0, input.1, input.2), x) && r == wrap_err(x)
    }

    fn call<R: TupleOrUnit<(Out,)>, I: TupleOrUnit<(A, B, C)>>(self, result: R, input: I) -> (r:
        Result<(), (E,)>) {
        let (a, b, c) = input.into();
        let (out,) = result.into();
        let x = self(out, a, b, c);
        let r = match x {
            Ok(()) => Ok(()),
            Err(e) => Err((e,)),
        };
        assert(r == wrap_err(x));
        r
    }
}

/// A compensation that takes the operation's result and its four inputs.
impl<F, A, B, C, D, Out, E> CompensationFunction<(A, B, C, D), (Out,), (E,)> for F where
    F: FnOnce(Out, A, B, C, D) -> Result<(), E>,
 {
    open spec fn call_requires(&self, result: (Out,), input: (A, B, C, D)) -> bool {
        self.requires((result.0, input.0, input.1, input.2, input.3))
    }

    open spec fn call_ensures(&self, result: (Out,), input: (A, B, C, D), r: Result<(), (E,)>) -> bool {
        exists|x: Result<(), E>| self.ensures((result.0, input.0, input.1, input.2, input.3), x) && r == wrap_err(x)
    }

    fn call<R: TupleOrUnit<(Out,)>, I: TupleOrUnit<(A, B, C, D)>>(self, result: R, input: I) -> (r:
        Result<(), (E,)>) {
        let (a, b, c, d) = input.into();
        let (out,) = result.into();
        let x = self(out, a, b, c, d);
        let r = match x {
            Ok(()) => Ok(()),
            Err(e) => Err((e,)),
        };
        assert(r == wrap_err(x));
        r
    }
}

/// A compensation that takes the operation's result and its five inputs.
impl<F, A, B, C, D, G, Out, E> CompensationFunction<(A, B, C, D, G), (Out,), (E,)> for F where
    F: FnOnce(Out, A, B, C, D, G) -> Result<(), E>,
 {
    open spec fn call_requires(&self, result: (Out,), input: (A, B, C, D, G)) -> bool {
        self.requires((result.0, input.0, input.1, input.2, input.3, input.4))
    }

    open spec fn call_ensures(&self, result: (Out,), input: (A, B, C, D, G), r: Result<(), (E,)>) -> bool {
        exists|x: Result<(), E>| self.ensures((result.0, input.0, input.1, input.2, input.3, input.4), x) && r == wrap_err(x)
    }

    fn call<R: TupleOrUnit<(Out,)>, I: TupleOrUnit<(A, B, C, D, G)>>(self, result: R, input: I) -> (r:
        Result<(), (E,)>) {
        let (a, b, c, d, g) = input.into();
        let (out,) = result.into();
        let x = self(out, a, b, c, d, g);
        let r = match x {
            Ok(()) => Ok(()),
            Err(e) => Err((e,)),
        };
        assert(r == wrap_err(x));
        r
    }
}

/// A compensation that takes the operation's result and its six inputs.
impl<F, A, B, C, D, G, H, Out, E> CompensationFunction<(A, B, C, D, G, H), (Out,), (E,)> for F where
    F: FnOnce(Out, A, B, C, D, G, H) -> Result<(), E>,
 {
    open spec fn call_requires(&self, result: (Out,), input: (A, B, C, D, G, H)) -> bool {
        self.requires((result.0, input.0, input.1, input.2, input.3, input.4, input.5))
    }

    open spec fn call_ensures(&self, result: (Out,), input: (A, B, C, D, G, H), r: Result<(), (E,)>) -> bool {
        exists|x: Result<(), E>| self.ensures((result.0, input.0, input.1, input.2, input.3, input.4, input.5), x) && r == wrap_err(x)
    }

    fn call<R: TupleOrUnit<(Out,)>, I: TupleOrUnit<(A, B, C, D, G, H)>>(self, result: R, input: I) -> (r:
        Result<(), (E,)>) {
        let (a, b, c, d, g, h) = input.into();
        let (out,) = result.into();
        let x = self(out, a, b, c, d, g, h);
        let r = match x {
            Ok(()) => Ok(()),
            Err(e) => Err((e,)),
        };
        assert(r == wrap_err(x));
        r
    }
}

/// Calls the compensation function `f` with the operation's result and input.
pub fn call_compensation_function<In, Out, E, C, R, I>(f: C, result: R, input: I) -> (r: Result<
    (),
    E,
>) where C: CompensationFunction<In, Out, E>, R: TupleOrUnit<Out>, I: TupleOrUnit<In>
    requires
        f.call_requires(result.spec_into(), input.spec_into()),
    ensures
        f.call_ensures(result.spec_into(), input.spec_into(), r),
{
    f.call(result, input)
}

/// A compensation that needs neither result nor input may be called where the
/// function may be called with no arguments, and its outcome is the function's,
/// with the error wrapped in a 1-tuple.
pub proof fn lemma_compensation_without_arguments<F, E>(f: &F)
    where F: FnOnce() -> Result<(), E>,
    ensures
        CompensationFunction::<(), (), (E,)>::call_requires(f, (), ()) <==> f.requires(()),
        forall|r: Result<(), (E,)>|
            #[trigger] CompensationFunction::<(), (), (E,)>::call_ensures(f, (), (), r) <==> exists|
                x: Result<(), E>,
            | f.ensures((), x) && r == wrap_err(x),
{
}

/// A compensation that takes the result only is called with the result and
/// nothing else; its outcome is the function's, with the error wrapped.
pub proof fn lemma_compensation_with_result<F, Out, E>(f: &F, result: (Out,))
    where F: FnOnce(Out) -> Result<(), E>,
    ensures
        CompensationFunction::<(), (Out,), (E,)>::call_requires(f, result, ()) <==> f.requires(
            (result.0,),
        ),
        forall|r: Result<(), (E,)>|
            #[trigger] CompensationFunction::<(), (Out,), (E,)>::call_ensures(f, result, (), r)
                <==> exists|x: Result<(), E>| f.ensures((result.0,), x) && r == wrap_err(x),
{
}

/// A compensation that takes the result and one input is called with the
/// result first, then the inputs in their order; its outcome is the function's,
/// with the error wrapped.
pub proof fn lemma_compensation_with_one_input<F, A, Out, E>(f: &F, result: (Out,), input: (A,))
    where F: FnOnce(Out, A) -> Result<(), E>,
    ensures
        CompensationFunction::<(A,), (Out,), (E,)>::call_requires(f, result, input) <==> f.requires(
            (result.0, input.0),
        ),
        forall|r: Result<(), (E,)>|
            #[trigger] CompensationFunction::<(A,), (Out,), (E,)>::call_ensures(f, result, input, r)
                <==> exists|x: Result<(), E>| f.ensures((result.0, input.0), x) && r == wrap_err(x),
{
}

/// A compensation that takes the result and two inputs is called with the
/// result first, then the inputs in their order; its outcome is the function's,
/// with the error wrapped.
pub proof fn lemma_compensation_with_two_inputs<F, A, B, Out, E>(f: &F, result: (Out,), input: (A, B))
    where F: FnOnce(Out, A, B) -> Result<(), E>,
    ensures
        CompensationFunction::<(A, B), (Out,), (E,)>::call_requires(f, result, input) <==> f.requires(
            (result.0, input.0, input.1),
        ),
        forall|r: Result<(), (E,)>|
            #[trigger] CompensationFunction::<(A, B), (Out,), (E,)>::call_ensures(f, result, input, r)
                <==> exists|x: Result<(), E>| f.ensures((result.0, input.0, input.1), x) && r == wrap_err(x),
{
}

/// A compensation that takes the result and three inputs is called with the
/// result first, then the inputs in their order; its outcome is the function's,
/// with the error wrapped.
pub proof fn lemma_compensation_with_three_inputs<F, A, B, C, Out, E>(f: &F, result: (Out,), input: (A, B, C))
    where F: FnOnce(Out, A, B, C) -> Result<(), E>,
    ensures
        CompensationFunction::<(A, B, C), (Out,), (E,)>::call_requires(f, result, input) <==> f.requires(
            (result.0, input.0, input.1, input.2),
        ),
        forall|r: Result<(), (E,)>|
            #[trigger] CompensationFunction::<(A, B, C), (Out,), (E,)>::call_ensures(f, result, input, r)
                <==> exists|x: Result<(), E>| f.ensures((result.0, input.0, input.1, input.2), x) && r == wrap_err(x),
{
}

/// A compensation that takes the result and four inputs is called with the
/// result first, then the inputs in their order; its outcome is the function's,
/// with the error wrapped.
pub proof fn lemma_compensation_with_four_inputs<F, A, B, C, D, Out, E>(f: &F, result: (Out,), input: (A, B, C, D))
    where F: FnOnce(Out, A, B, C, D) -> Result<(), E>,
    ensures
        CompensationFunction::<(A, B, C, D), (Out,), (E,)>::call_requires(f, result, input) <==> f.requires(
            (result.0, input.0, input.1, input.2, input.3),
        ),
        forall|r: Result<(), (E,)>|
            #[trigger] CompensationFunction::<(A, B, C, D), (Out,), (E,)>::call_ensures(f, result, input, r)
                <==> exists|x: Result<(), E>| f.ensures((result.0, input.0, input.1, input.2, input.3), x) && r == wrap_err(x),
{
}

/// A compensation that takes the result and five inputs is called with the
/// result first, then the inputs in their order; its outcome is the function's,
/// with the error wrapped.
pub proof fn lemma_compensation_with_five_inputs<F, A, B, C, D, G, Out, E>(f: &F, result: (Out,), input: (A, B, C, D, G))
    where F: FnOnce(Out, A, B, C, D, G) -> Result<(), E>,
    ensures
        CompensationFunction::<(A, B, C, D, G), (Out,), (E,)>::call_requires(f, result, input) <==> f.requires(
            (result.0, input.0, input.1, input.2, input.3, input.4),
        ),
        forall|r: Result<(), (E,)>|
            #[trigger] CompensationFunction::<(A, B, C, D, G), (Out,), (E,)>::call_ensures(f, result, input, r)
                <==> exists|x: Result<(), E>| f.ensures((result.0, input.0, input.1, input.2, input.3, input.4), x) && r == wrap_err(x),
{
}

/// A compensation that takes the result and six inputs is called with the
/// result first, then the inputs in their order; its outcome is the function's,
/// with the error wrapped.
pub proof fn lemma_compensation_with_six_inputs<F, A, B, C, D, G, H, Out, E>(f: &F, result: (Out,), input: (A, B, C, D, G, H))
    where F: FnOnce(Out, A, B, C, D, G, H) -> Result<(), E>,
    ensures
        CompensationFunction::<(A, B, C, D, G, H), (Out,), (E,)>::call_requires(f, result, input) <==> f.requires(
            (result.0, input.0, input.1, input.2, input.3, input.4, input.5),
        ),
        forall|r: Result<(), (E,)>|
            #[trigger] CompensationFunction::<(A, B, C, D, G, H), (Out,), (E,)>::call_ensures(f, result, input, r)
                <==> exists|x: Result<(), E>| f.ensures((result.0, input.0, input.1, input.2, input.3, input.4, input.5), x) && r == wrap_err(x),
{
}

/// Runs, as the compensation of an addition, a closure that checks the
/// addition's result against the sum of its two inputs: `Ok` where they agree,
/// the result as the error otherwise.
pub fn compensate_sum(result: u32, a: u32, b: u32) -> (r: Result<(), (u32,)>)
    ensures
        r == (if result == a + b {
            Ok::<(), (u32,)>(())
        } else {
            Err((result,))
        }),
{
    let check = |out: u32, x: u32, y: u32| -> (c: Result<(), u32>)
        ensures
            c == (if out == x + y {
                Ok::<(), u32>(())
            } else {
                Err(out)
            }),
        {
            if out as u64 == x as u64 + y as u64 {
                Ok(())
            } else {
                Err(out)
            }
        };
    proof {
        lemma_compensation_with_two_inputs(&check, (result,), (a, b));
    }
    call_compensation_function(check, (result,), (a, b))
}

} // verus!

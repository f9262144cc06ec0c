//! Units of work and the ways to compose them: one after the other, over a
//! list of inputs, with a mapped output, and with a second step built from
//! the output of the first.

use vstd::prelude::*;
use crate::error::BuildError;

verus! {

/// A unit of work: it takes an input and gives an output, or fails.
pub trait ProcessingStep {
    type Input;

    type Output;

    /// The inputs that the step may be run on. A step that says nothing
    /// accepts every input.
    open spec fn accepts(&self, input: Self::Input) -> bool {
        true
    }

    /// Whether `result` is what the step may give for `input`. A step that
    /// says nothing may give anything.
    open spec fn outcome(&self, input: Self::Input, result: Result<Self::Output, BuildError>) -> bool {
        true
    }

    /// Runs the step on `input`.
    fn process(&self, input: Self::Input) -> (r: Result<Self::Output, BuildError>)
        requires
            self.accepts(input),
        ensures
            self.outcome(input, r),
    ;
}

/// Whether `step` may give an output for `input`.
pub open spec fn may_succeed<S: ProcessingStep>(step: &S, input: S::Input) -> bool {
    exists|o: S::Output| #[trigger] step.outcome(input, Ok(o))
}

/// Two steps, the second run on the output of the first.
pub struct Chained<S1: ProcessingStep, S2: ProcessingStep<Input = S1::Output>>(pub S1, pub S2);

/// A step run on each input of a list.
pub struct Parallel<S: ProcessingStep>(pub S);

impl<S1: ProcessingStep, S2: ProcessingStep<Input = S1::Output>> ProcessingStep for Chained<S1, S2> {
    type Input = S1::Input;

    type Output = S2::Output;

    /// The first step accepts the input, and the second accepts whatever the
    /// first may give for it.
    open spec fn accepts(&self, input: Self::Input) -> bool {
        &&& self.0.accepts(input)
        &&& forall|mid: S1::Output| #[trigger] self.0.outcome(input, Ok(mid)) ==> self.1.accepts(mid)
    }

    /// A failure of the first step is the failure of the whole; otherwise the
    /// result is that of the second step on the output of the first.
    open spec fn outcome(&self, input: Self::Input, result: Result<Self::Output, BuildError>) -> bool {
        ||| (result matches Err(e) && self.0.outcome(input, Err(e)))
        ||| exists|mid: S1::Output| #[trigger]
            self.0.outcome(input, Ok(mid)) && self.1.outcome(mid, result)
    }

    fn process(&self, input: Self::Input) -> (r: Result<Self::Output, BuildError>) {
        match self.0.process(input) {
            Ok(first) => self.1.process(first),
            Err(e) => Err(e),
        }
    }
}

impl<S: ProcessingStep> ProcessingStep for Parallel<S> {
    type Input = Vec<S::Input>;

    type Output = Vec<S::Output>;

    /// The step accepts each input of the list.
    open spec fn accepts(&self, input: Self::Input) -> bool {
        forall|i: int| 0 <= i < input.len() ==> self.0.accepts(#[trigger] input[i])
    }

    /// Success is one output for each input, in the order of the inputs.
    /// Failure is the failure of one input before which every input
    /// succeeded.
    open spec fn outcome(&self, input: Self::Input, result: Result<Self::Output, BuildError>) -> bool {
        match result {
            Ok(out) => {
                &&& out.len() == input.len()
                &&& forall|i: int|
                    0 <= i < input.len() ==> self.0.outcome(input[i], Ok(#[trigger] out[i]))
            },
            Err(e) => exists|k: int|
                {
                    &&& 0 <= k < input.len()
                    &&& #[trigger] self.0.outcome(input[k], Err(e))
                    &&& forall|j: int| 0 <= j < k ==> may_succeed(&self.0, #[trigger] input[j])
                },
        }
    }

    fn process(&self, input: Self::Input) -> (r: Result<Self::Output, BuildError>) {
        let mut out: Vec<S::Output> = Vec::new();
        for item in it: input
            invariant
                it.seq() == input@,
                forall|i: int| 0 <= i < input.len() ==> self.0.accepts(#[trigger] input[i]),
                out.len() == it.index(),
                forall|i: int|
                    0 <= i < out.len() ==> self.0.outcome(input[i], Ok(#[trigger] out[i])),
        {
            let ghost k: int = it.index() as int;
            assert(item == input[k]);
            match self.0.process(item) {
                Ok(o) => {
                    out.push(o);
                },
                Err(e) => {
                    assert(self.0.outcome(input[k], Err(e)));
                    assert forall|j: int| 0 <= j < k implies may_succeed(
                        &self.0,
                        #[trigger] input[j],
                    ) by {
                        assert(self.0.outcome(input[j], Ok(out[j])));
                    }
                    return Err(e);
                },
            }
        }
        Ok(out)
    }
}

/// Puts a second step behind a step.
pub trait ProcessingChain: Sized + ProcessingStep {
    fn chain<S: ProcessingStep<Input = Self::Output>>(self, other: S) -> (r: Chained<Self, S>)
        ensures
            r.0 == self,
            r.1 == other,
    {
        Chained(self, other)
    }
}

impl<S: ProcessingStep> ProcessingChain for S {

}

/// Lifts a step to lists of inputs.
pub trait ProcessingParallel: Sized + ProcessingStep {
    fn parallel(self) -> (r: Parallel<Self>)
        ensures
            r.0 == self,
    {
        Parallel(self)
    }
}

impl<S: ProcessingStep> ProcessingParallel for S {

}

/// A step whose output is passed through a function.
#[verifier::reject_recursive_types(T)]
pub struct MapOutput<S: ProcessingStep, T, F: Fn(S::Output) -> T>(
    pub S,
    pub F,
    pub core::marker::PhantomData<T>,
);

impl<S: ProcessingStep, T, F: Fn(S::Output) -> T> ProcessingStep for MapOutput<S, T, F> {
    type Input = S::Input;

    type Output = T;

    /// The step accepts the input, and the function may be called on whatever
    /// the step may give for it.
    open spec fn accepts(&self, input: Self::Input) -> bool {
        &&& self.0.accepts(input)
        &&& forall|mid: S::Output| #[trigger]
            self.0.outcome(input, Ok(mid)) ==> self.1.requires((mid,))
    }

    /// A failure of the step is the failure of the whole; the function adds
    /// none of its own.
    open spec fn outcome(&self, input: Self::Input, result: Result<Self::Output, BuildError>) -> bool {
        match result {
            Ok(out) => exists|mid: S::Output| #[trigger]
                self.0.outcome(input, Ok(mid)) && self.1.ensures((mid,), out),
            Err(e) => self.0.outcome(input, Err(e)),
        }
    }

    fn process(&self, input: Self::Input) -> (r: Result<Self::Output, BuildError>) {
        match self.0.process(input) {
            Ok(inner) => Ok((self.1)(inner)),
            Err(e) => Err(e),
        }
    }
}

/// A step followed by a second step that a function builds, together with its
/// input, from the output of the first.
#[verifier::reject_recursive_types(S2)]
#[verifier::reject_recursive_types(T)]
pub struct Construct<
    S1: ProcessingStep,
    S2: ProcessingStep<Input = T>,
    T,
    F: Fn(S1::Output) -> (T, S2),
>(pub S1, pub F, pub core::marker::PhantomData<(T, S2)>);

impl<
    S1: ProcessingStep,
    S2: ProcessingStep<Input = T>,
    T,
    F: Fn(S1::Output) -> (T, S2),
> ProcessingStep for Construct<S1, S2, T, F> {
    type Input = S1::Input;

    type Output = S2::Output;

    /// The first step accepts the input, the function may be called on
    /// whatever the first step may give, and the step that it builds accepts
    /// the input that it builds.
    open spec fn accepts(&self, input: Self::Input) -> bool {
        &&& self.0.accepts(input)
        &&& forall|mid: S1::Output| #[trigger]
            self.0.outcome(input, Ok(mid)) ==> self.1.requires((mid,))
        &&& forall|mid: S1::Output, built: (T, S2)|
            self.0.outcome(input, Ok(mid)) && #[trigger] self.1.ensures((mid,), built)
                ==> built.1.accepts(built.0)
    }

    /// A failure of the first step is the failure of the whole; otherwise the
    /// result is that of the built step on the built input.
    open spec fn outcome(&self, input: Self::Input, result: Result<Self::Output, BuildError>) -> bool {
        ||| (result matches Err(e) && self.0.outcome(input, Err(e)))
        ||| exists|mid: S1::Output, built: (T, S2)|
            {
                &&& self.0.outcome(input, Ok(mid))
                &&& #[trigger] self.1.ensures((mid,), built)
                &&& built.1.outcome(built.0, result)
            }
    }

    fn process(&self, input: Self::Input) -> (r: Result<Self::Output, BuildError>) {
        match self.0.process(input) {
            Ok(inner) => {
                let built = (self.1)(inner);
                let (new_input, step) = built;
                step.process(new_input)
            },
            Err(e) => Err(e),
        }
    }
}

/// Passes the output of a step through a function.
pub trait ProcessingMap: ProcessingStep + Sized {
    fn map<F: Fn(Self::Output) -> T, T>(self, map_fn: F) -> (r: MapOutput<Self, T, F>)
        ensures
            r.0 == self,
            r.1 == map_fn,
    {
        MapOutput(self, map_fn, core::marker::PhantomData)
    }
}

impl<S: ProcessingStep> ProcessingMap for S {

}

/// Puts behind a step the step that a function builds from its output.
pub trait ProcessingConstruct: ProcessingStep + Sized {
    fn construct<F: Fn(Self::Output) -> (T, S), S: ProcessingStep<Input = T>, T>(
        self,
        construct_fn: F,
    ) -> (r: Construct<Self, S, T, F>)
        ensures
            r.0 == self,
            r.1 == construct_fn,
    {
        Construct(self, construct_fn, core::marker::PhantomData)
    }
}

impl<S: ProcessingStep> ProcessingConstruct for S {

}

/// What two chained steps may give, spelled out.
pub proof fn lemma_chained_outcome<S1: ProcessingStep, S2: ProcessingStep<Input = S1::Output>>(
    first: S1,
    second: S2,
    input: S1::Input,
    result: Result<S2::Output, BuildError>,
)
    ensures
        Chained(first, second).outcome(input, result) <==> ((result matches Err(e) && first.outcome(
            input,
            Err(e),
        )) || exists|mid: S1::Output| #[trigger]
            first.outcome(input, Ok(mid)) && second.outcome(mid, result)),
{
    let whole = Chained(first, second);
    assert(whole.0 == first && whole.1 == second);
    if whole.outcome(input, result) {
        if !(result matches Err(e) && first.outcome(input, Err(e))) {
            let mid = choose|mid: S1::Output| #[trigger]
                whole.0.outcome(input, Ok(mid)) && whole.1.outcome(mid, result);
            assert(first.outcome(input, Ok(mid)) && second.outcome(mid, result));
        }
    }
    if exists|mid: S1::Output| #[trigger]
        first.outcome(input, Ok(mid)) && second.outcome(mid, result) {
        let mid = choose|mid: S1::Output| #[trigger]
            first.outcome(input, Ok(mid)) && second.outcome(mid, result);
        assert(whole.0.outcome(input, Ok(mid)) && whole.1.outcome(mid, result));
    }
}

/// Chaining groups freely: a first step followed by two chained steps gives
/// what the first two steps chained, followed by the third, give.
pub proof fn lemma_chain_is_associative<
    A: ProcessingStep,
    B: ProcessingStep<Input = A::Output>,
    C: ProcessingStep<Input = B::Output>,
>(a: A, b: B, c: C, input: A::Input, result: Result<C::Output, BuildError>)
    ensures
        Chained(Chained(a, b), c).outcome(input, result) <==> Chained(a, Chained(b, c)).outcome(
            input,
            result,
        ),
{
    let ab = Chained(a, b);
    let bc = Chained(b, c);
    lemma_chained_outcome(ab, c, input, result);
    lemma_chained_outcome(a, bc, input, result);
    if Chained(ab, c).outcome(input, result) {
        if result matches Err(e) && ab.outcome(input, Err(e)) {
            let e = result->Err_0;
            lemma_chained_outcome(a, b, input, Err(e));
            if !a.outcome(input, Err(e)) {
                let mid = choose|mid: A::Output| #[trigger]
                    a.outcome(input, Ok(mid)) && b.outcome(mid, Err(e));
                lemma_chained_outcome(b, c, mid, result);
                assert(a.outcome(input, Ok(mid)) && bc.outcome(mid, result));
            }
        } else {
            let second = choose|second: B::Output| #[trigger]
                ab.outcome(input, Ok(second)) && c.outcome(second, result);
            lemma_chained_outcome(a, b, input, Ok(second));
            let mid = choose|mid: A::Output| #[trigger]
                a.outcome(input, Ok(mid)) && b.outcome(mid, Ok(second));
            lemma_chained_outcome(b, c, mid, result);
            assert(b.outcome(mid, Ok(second)) && c.outcome(second, result));
            assert(a.outcome(input, Ok(mid)) && bc.outcome(mid, result));
        }
    }
    if Chained(a, bc).outcome(input, result) {
        if result matches Err(e) && a.outcome(input, Err(e)) {
            lemma_chained_outcome(a, b, input, Err(result->Err_0));
        } else {
            let mid = choose|mid: A::Output| #[trigger]
                a.outcome(input, Ok(mid)) && bc.outcome(mid, result);
            lemma_chained_outcome(b, c, mid, result);
            if result matches Err(e) && b.outcome(mid, Err(e)) {
                let e = result->Err_0;
                lemma_chained_outcome(a, b, input, Err(e));
                assert(a.outcome(input, Ok(mid)) && b.outcome(mid, Err(e)));
            } else {
                let second = choose|second: B::Output| #[trigger]
                    b.outcome(mid, Ok(second)) && c.outcome(second, result);
                lemma_chained_outcome(a, b, input, Ok(second));
                assert(a.outcome(input, Ok(mid)) && b.outcome(mid, Ok(second)));
                assert(ab.outcome(input, Ok(second)) && c.outcome(second, result));
            }
        }
    }
}

/// A step run on no input gives no output, and does not fail.
pub proof fn lemma_parallel_of_nothing<S: ProcessingStep>(
    step: S,
    input: Vec<S::Input>,
    result: Result<Vec<S::Output>, BuildError>,
)
    requires
        input.len() == 0,
        Parallel(step).outcome(input, result),
    ensures
        result is Ok,
        result->Ok_0.len() == 0,
{
}

/// A step run on a list fails only where it fails on an input of the list,
/// and succeeds only where it succeeds on every input of the list.
pub proof fn lemma_parallel_is_all_or_nothing<S: ProcessingStep>(
    step: S,
    input: Vec<S::Input>,
    result: Result<Vec<S::Output>, BuildError>,
)
    requires
        Parallel(step).outcome(input, result),
    ensures
        result is Ok ==> forall|i: int|
            0 <= i < input.len() ==> may_succeed(&step, #[trigger] input[i]),
        result is Err ==> exists|k: int|
            0 <= k < input.len() && #[trigger] step.outcome(input[k], Err(result->Err_0)),
{
    let whole = Parallel(step);
    match result {
        Ok(out) => {
            assert forall|i: int| 0 <= i < input.len() implies may_succeed(
                &step,
                #[trigger] input[i],
            ) by {
                assert(step.outcome(input[i], Ok(out[i])));
            }
        },
        Err(e) => {
            let k = choose|k: int|
                0 <= k < input.len() && #[trigger] whole.0.outcome(input[k], Err(e));
            assert(step.outcome(input[k], Err(e)));
        },
    }
}

} // verus!

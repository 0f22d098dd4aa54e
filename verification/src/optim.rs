//! Optimizers that update a parameter buffer in place from its gradients.

use vstd::prelude::*;

verus! {

/// Why an optimizer refused an update.
#[derive(Clone, Copy, Debug, PartialEq, Eq, Structural)]
pub enum OptimError {
    /// The buffers handed to the update do not all hold the same number of elements.
    LengthMismatch,
}

/// `next` is a result of `param - rate * grad`.
pub open spec fn sgd_step<T: Copy + core::ops::Mul<Output = T> + core::ops::Sub<Output = T>>(
    rate: T,
    param: T,
    grad: T,
    next: T,
) -> bool {
    exists|delta: T| #[trigger] call_ensures(T::mul, (rate, grad), delta) && call_ensures(T::sub, (param, delta), next)
}

/// The operators accept `rate * grad` and the subtraction of whatever it yields from `param`.
pub open spec fn sgd_step_allowed<T: Copy + core::ops::Mul<Output = T> + core::ops::Sub<Output = T>>(
    rate: T,
    param: T,
    grad: T,
) -> bool {
    &&& call_requires(T::mul, (rate, grad))
    &&& forall|delta: T| #[trigger] call_ensures(T::mul, (rate, grad), delta) ==> call_requires(T::sub, (param, delta))
}

/// Stochastic gradient descent with a fixed learning rate.
#[derive(Clone, Copy, Debug)]
pub struct SGDOptimizer<T> {
    learning_rate: T,
}

impl<T: Copy> SGDOptimizer<T> {
    /// The learning rate that every update applies.
    pub closed spec fn rate(&self) -> T {
        self.learning_rate
    }

    /// An optimizer with the given learning rate.
    pub fn new(learning_rate: T) -> (optimizer: SGDOptimizer<T>)
        ensures
            optimizer.rate() == learning_rate,
    {
        SGDOptimizer { learning_rate }
    }

    /// The learning rate that every update applies.
    pub fn learning_rate(&self) -> (rate: T)
        ensures
            rate == self.rate(),
    {
        self.learning_rate
    }
}

impl<T: Copy + core::ops::Mul<Output = T> + core::ops::Sub<Output = T>> SGDOptimizer<T> {
    /// Replaces every `params[i]` by `params[i] - learning_rate * grads[i]`.
    ///
    /// The two buffers must hold equally many elements; otherwise the update is
    /// refused and `params` is left as it was.
    pub fn update(&self, params: &mut [T], grads: &[T]) -> (res: Result<(), OptimError>)
        requires
            old(params)@.len() == grads@.len() ==> forall|i: int|
                0 <= i < grads@.len() ==> sgd_step_allowed(self.rate(), #[trigger] old(params)@[i], grads@[i]),
        ensures
            final(params)@.len() == old(params)@.len(),
            old(params)@.len() != grads@.len() ==> res == Err::<(), OptimError>(OptimError::LengthMismatch)
                && final(params)@ == old(params)@,
            old(params)@.len() == grads@.len() ==> res == Ok::<(), OptimError>(()) && forall|i: int|
                0 <= i < grads@.len() ==> sgd_step(
                    self.rate(),
                    old(params)@[i],
                    grads@[i],
                    #[trigger] final(params)@[i],
                ),
    {
        let size: usize = params.len();
        if size != grads.len() {
            return Err(OptimError::LengthMismatch);
        }
        let mut i: usize = 0;
        while i < size
            invariant
                i <= size,
                size == grads@.len(),
                params@.len() == size,
                old(params)@.len() == size,
                forall|j: int|
                    0 <= j < size ==> sgd_step_allowed(self.rate(), #[trigger] old(params)@[j], grads@[j]),
                forall|j: int| i <= j < size ==> params@[j] == old(params)@[j],
                forall|j: int|
                    0 <= j < i ==> sgd_step(self.rate(), old(params)@[j], grads@[j], #[trigger] params@[j]),
            decreases size - i,
        {
            assert(sgd_step_allowed(self.rate(), old(params)@[i as int], grads@[i as int]));
            let delta = self.learning_rate * grads[i];
            let next = params[i] - delta;
            params[i] = next;
            i += 1;
        }
        Ok(())
    }
}

/// The four arithmetic operators of `T` accept every pair of operands, as
/// those of a floating-point type do.
pub open spec fn arithmetic_total<
    T: Copy + core::ops::Add<Output = T> + core::ops::Sub<Output = T> + core::ops::Mul<Output = T> + core::ops::Div<
        Output = T,
    >,
>() -> bool {
    &&& forall|a: T, b: T| #[trigger] call_requires(T::add, (a, b))
    &&& forall|a: T, b: T| #[trigger] call_requires(T::sub, (a, b))
    &&& forall|a: T, b: T| #[trigger] call_requires(T::mul, (a, b))
    &&& forall|a: T, b: T| #[trigger] call_requires(T::div, (a, b))
}

/// `next` is a result of `beta * old + (one - beta) * grad`.
pub open spec fn first_moment<
    T: Copy + core::ops::Add<Output = T> + core::ops::Sub<Output = T> + core::ops::Mul<Output = T>,
>(one: T, beta: T, old: T, grad: T, next: T) -> bool {
    exists|kept: T, weight: T, fresh: T|
        {
            &&& #[trigger] call_ensures(T::mul, (beta, old), kept)
            &&& call_ensures(T::sub, (one, beta), weight)
            &&& #[trigger] call_ensures(T::mul, (weight, grad), fresh)
            &&& call_ensures(T::add, (kept, fresh), next)
        }
}

/// `next` is a result of `beta * old + (one - beta) * grad * grad`.
pub open spec fn second_moment<
    T: Copy + core::ops::Add<Output = T> + core::ops::Sub<Output = T> + core::ops::Mul<Output = T>,
>(one: T, beta: T, old: T, grad: T, next: T) -> bool {
    exists|kept: T, weight: T, once: T, twice: T|
        {
            &&& #[trigger] call_ensures(T::mul, (beta, old), kept)
            &&& call_ensures(T::sub, (one, beta), weight)
            &&& #[trigger] call_ensures(T::mul, (weight, grad), once)
            &&& #[trigger] call_ensures(T::mul, (once, grad), twice)
            &&& call_ensures(T::add, (kept, twice), next)
        }
}

/// `hat` is a result of `raw / (one - pow(beta, iteration))`.
pub open spec fn bias_corrected<
    T: Copy + core::ops::Sub<Output = T> + core::ops::Div<Output = T>,
    P: Fn(T, usize) -> T,
>(pow: P, one: T, beta: T, iteration: usize, raw: T, hat: T) -> bool {
    exists|power: T, rest: T|
        {
            &&& #[trigger] call_ensures(pow, (beta, iteration), power)
            &&& #[trigger] call_ensures(T::sub, (one, power), rest)
            &&& call_ensures(T::div, (raw, rest), hat)
        }
}

/// `next` is a result of `param - rate * m_hat / (sqrt(v_hat) + epsilon)`.
pub open spec fn descent<
    T: Copy + core::ops::Add<Output = T> + core::ops::Sub<Output = T> + core::ops::Mul<Output = T> + core::ops::Div<
        Output = T,
    >,
    S: Fn(T) -> T,
>(sqrt: S, rate: T, epsilon: T, m_hat: T, v_hat: T, param: T, next: T) -> bool {
    exists|scaled: T, root: T, floor: T, delta: T|
        {
            &&& #[trigger] call_ensures(T::mul, (rate, m_hat), scaled)
            &&& #[trigger] call_ensures(sqrt, (v_hat,), root)
            &&& #[trigger] call_ensures(T::add, (root, epsilon), floor)
            &&& #[trigger] call_ensures(T::div, (scaled, floor), delta)
            &&& call_ensures(T::sub, (param, delta), next)
        }
}

fn first_moment_of<
    T: Copy + core::ops::Add<Output = T> + core::ops::Sub<Output = T> + core::ops::Mul<Output = T> + core::ops::Div<
        Output = T,
    >,
>(one: T, beta: T, old: T, grad: T) -> (next: T)
    requires
        arithmetic_total::<T>(),
    ensures
        first_moment(one, beta, old, grad, next),
{
    assert(call_requires(T::mul, (beta, old)));
    assert(call_requires(T::sub, (one, beta)));
    let kept = beta * old;
    let weight = one - beta;
    assert(call_requires(T::mul, (weight, grad)));
    let fresh = weight * grad;
    assert(call_requires(T::add, (kept, fresh)));
    let next = kept + fresh;
    assert(call_ensures(T::mul, (beta, old), kept) && call_ensures(T::mul, (weight, grad), fresh));
    next
}

fn second_moment_of<
    T: Copy + core::ops::Add<Output = T> + core::ops::Sub<Output = T> + core::ops::Mul<Output = T> + core::ops::Div<
        Output = T,
    >,
>(one: T, beta: T, old: T, grad: T) -> (next: T)
    requires
        arithmetic_total::<T>(),
    ensures
        second_moment(one, beta, old, grad, next),
{
    assert(call_requires(T::mul, (beta, old)));
    assert(call_requires(T::sub, (one, beta)));
    let kept = beta * old;
    let weight = one - beta;
    assert(call_requires(T::mul, (weight, grad)));
    let once = weight * grad;
    assert(call_requires(T::mul, (once, grad)));
    let twice = once * grad;
    assert(call_requires(T::add, (kept, twice)));
    let next = kept + twice;
    assert(call_ensures(T::mul, (beta, old), kept) && call_ensures(T::mul, (weight, grad), once) && call_ensures(
        T::mul,
        (once, grad),
        twice,
    ));
    next
}

fn bias_corrected_of<
    T: Copy + core::ops::Add<Output = T> + core::ops::Sub<Output = T> + core::ops::Mul<Output = T> + core::ops::Div<
        Output = T,
    >,
    P: Fn(T, usize) -> T,
>(pow: &P, one: T, beta: T, iteration: usize, raw: T) -> (hat: T)
    requires
        arithmetic_total::<T>(),
        forall|base: T, exponent: usize| #[trigger] call_requires(*pow, (base, exponent)),
    ensures
        bias_corrected(*pow, one, beta, iteration, raw, hat),
{
    assert(call_requires(*pow, (beta, iteration)));
    let power = pow(beta, iteration);
    assert(call_requires(T::sub, (one, power)));
    let rest = one - power;
    assert(call_requires(T::div, (raw, rest)));
    let hat = raw / rest;
    assert(call_ensures(*pow, (beta, iteration), power) && call_ensures(T::sub, (one, power), rest));
    hat
}

fn descent_of<
    T: Copy + core::ops::Add<Output = T> + core::ops::Sub<Output = T> + core::ops::Mul<Output = T> + core::ops::Div<
        Output = T,
    >,
    S: Fn(T) -> T,
>(sqrt: &S, rate: T, epsilon: T, m_hat: T, v_hat: T, param: T) -> (next: T)
    requires
        arithmetic_total::<T>(),
        forall|x: T| #[trigger] call_requires(*sqrt, (x,)),
    ensures
        descent(*sqrt, rate, epsilon, m_hat, v_hat, param, next),
{
    assert(call_requires(T::mul, (rate, m_hat)));
    let scaled = rate * m_hat;
    assert(call_requires(*sqrt, (v_hat,)));
    let root = sqrt(v_hat);
    assert(call_requires(T::add, (root, epsilon)));
    let floor = root + epsilon;
    assert(call_requires(T::div, (scaled, floor)));
    let delta = scaled / floor;
    assert(call_requires(T::sub, (param, delta)));
    let next = param - delta;
    assert(call_ensures(T::mul, (rate, m_hat), scaled) && call_ensures(*sqrt, (v_hat,), root) && call_ensures(
        T::add,
        (root, epsilon),
        floor,
    ) && call_ensures(T::div, (scaled, floor), delta));
    next
}

/// The mathematical content of an Adam optimizer.
pub struct AdamView<T> {
    /// The step size.
    pub learning_rate: T,
    /// The decay rate of the first moment estimates.
    pub beta1: T,
    /// The decay rate of the second moment estimates.
    pub beta2: T,
    /// The stabilizer added to the denominator of each step.
    pub epsilon: T,
    /// The exponent that the next update uses in its bias correction.
    pub iteration: usize,
    /// The first moment estimates, one per parameter.
    pub m: Seq<T>,
    /// The second moment estimates, one per parameter.
    pub v: Seq<T>,
}

/// One parameter's share of an update from `state`: `m` and `v` are its new
/// moment estimates and `next` its new value, each a result of the chain
///
/// ```text
/// m     = beta1 * state.m[i] + (one - beta1) * grad
/// v     = beta2 * state.v[i] + (one - beta2) * grad * grad
/// m_hat = m / (one - pow(beta1, iteration))
/// v_hat = v / (one - pow(beta2, iteration))
/// next  = param - learning_rate * m_hat / (sqrt(v_hat) + epsilon)
/// ```
pub open spec fn adam_step<
    T: Copy + core::ops::Add<Output = T> + core::ops::Sub<Output = T> + core::ops::Mul<Output = T> + core::ops::Div<
        Output = T,
    >,
    P: Fn(T, usize) -> T,
    S: Fn(T) -> T,
>(pow: P, sqrt: S, state: AdamView<T>, one: T, i: int, param: T, grad: T, m: T, v: T, next: T) -> bool {
    exists|m_hat: T, v_hat: T|
        {
            &&& first_moment(one, state.beta1, state.m[i], grad, m)
            &&& second_moment(one, state.beta2, state.v[i], grad, v)
            &&& #[trigger] bias_corrected(pow, one, state.beta1, state.iteration, m, m_hat)
            &&& #[trigger] bias_corrected(pow, one, state.beta2, state.iteration, v, v_hat)
            &&& descent(sqrt, state.learning_rate, state.epsilon, m_hat, v_hat, param, next)
        }
}

/// Adaptive moment estimation: gradient descent whose step for each parameter
/// is scaled by running averages of that parameter's gradient and of its square.
#[derive(Clone, Debug)]
pub struct AdamOptimizer<T> {
    learning_rate: T,
    beta1: T,
    beta2: T,
    epsilon: T,
    iteration: usize,
    m: Vec<T>,
    v: Vec<T>,
}

impl<T> View for AdamOptimizer<T> {
    type V = AdamView<T>;

    closed spec fn view(&self) -> AdamView<T> {
        AdamView {
            learning_rate: self.learning_rate,
            beta1: self.beta1,
            beta2: self.beta2,
            epsilon: self.epsilon,
            iteration: self.iteration,
            m: self.m@,
            v: self.v@,
        }
    }
}

fn copied<T: Copy>(source: &[T]) -> (copy: Vec<T>)
    ensures
        copy@ == source@,
{
    let n: usize = source.len();
    let mut copy: Vec<T> = Vec::with_capacity(n);
    let mut i: usize = 0;
    while i < n
        invariant
            i <= n,
            n == source@.len(),
            copy@ == source@.take(i as int),
        decreases n - i,
    {
        copy.push(source[i]);
        assert(source@.take(i + 1) =~= source@.take(i as int).push(source@[i as int]));
        i += 1;
    }
    assert(source@.take(n as int) =~= source@);
    copy
}

impl<T: Copy> AdamOptimizer<T> {
    /// An optimizer for as many parameters as `params` holds.
    ///
    /// Both moment estimates start as copies of `params`, and the first update
    /// uses the exponent 1.
    pub fn new(learning_rate: T, beta1: T, beta2: T, epsilon: T, params: &[T]) -> (optimizer: AdamOptimizer<T>)
        ensures
            optimizer@ == (AdamView {
                learning_rate,
                beta1,
                beta2,
                epsilon,
                iteration: 1,
                m: params@,
                v: params@,
            }),
    {
        AdamOptimizer {
            learning_rate,
            beta1,
            beta2,
            epsilon,
            iteration: 1,
            m: copied(params),
            v: copied(params),
        }
    }

    /// The exponent that the next update uses in its bias correction: one more
    /// than the number of updates made so far.
    pub fn iteration(&self) -> (iteration: usize)
        ensures
            iteration == self@.iteration,
    {
        self.iteration
    }

    /// The first moment estimates, one per parameter.
    pub fn m(&self) -> (m: &Vec<T>)
        ensures
            m@ == self@.m,
    {
        &self.m
    }

    /// The second moment estimates, one per parameter.
    pub fn v(&self) -> (v: &Vec<T>)
        ensures
            v@ == self@.v,
    {
        &self.v
    }
}

/// Whether the buffers of an update and both moment estimates of `state` hold
/// equally many elements.
pub open spec fn lengths_agree<T>(state: AdamView<T>, params: Seq<T>, grads: Seq<T>) -> bool {
    &&& params.len() == grads.len()
    &&& params.len() == state.m.len()
    &&& params.len() == state.v.len()
}

/// What a successful update makes of the state `before` and of `params`: the
/// hyperparameters stay, the exponent grows by one, and every parameter and
/// both of its moment estimates take one [`adam_step`], all with the same
/// `one` and the exponent of `before`.
pub open spec fn adam_updated<
    T: Copy + core::convert::From<u8> + core::ops::Add<Output = T> + core::ops::Sub<Output = T> + core::ops::Mul<
        Output = T,
    > + core::ops::Div<Output = T>,
    P: Fn(T, usize) -> T,
    S: Fn(T) -> T,
>(pow: P, sqrt: S, before: AdamView<T>, params: Seq<T>, grads: Seq<T>, after: AdamView<T>, next: Seq<T>) -> bool {
    &&& after.learning_rate == before.learning_rate
    &&& after.beta1 == before.beta1
    &&& after.beta2 == before.beta2
    &&& after.epsilon == before.epsilon
    &&& after.iteration == before.iteration + 1
    &&& after.m.len() == before.m.len()
    &&& after.v.len() == before.v.len()
    &&& next.len() == params.len()
    &&& exists|one: T|
        {
            &&& #[trigger] call_ensures(T::from, (1u8,), one)
            &&& forall|i: int|
                0 <= i < grads.len() ==> adam_step(
                    pow,
                    sqrt,
                    before,
                    one,
                    i,
                    params[i],
                    grads[i],
                    after.m[i],
                    after.v[i],
                    #[trigger] next[i],
                )
        }
}

/// The exponent grows by exactly one with every update, however many
/// parameters there are: of two updates in a row, the second starts from the
/// exponent that follows the first one's, with the same hyperparameters and
/// buffers of the same lengths.
pub proof fn lemma_successive_updates<
    T: Copy + core::convert::From<u8> + core::ops::Add<Output = T> + core::ops::Sub<Output = T> + core::ops::Mul<
        Output = T,
    > + core::ops::Div<Output = T>,
    P: Fn(T, usize) -> T,
    S: Fn(T) -> T,
>(
    pow: P,
    sqrt: S,
    start: AdamView<T>,
    params: Seq<T>,
    grads: Seq<T>,
    middle: AdamView<T>,
    stepped: Seq<T>,
    again: Seq<T>,
    end: AdamView<T>,
    last: Seq<T>,
)
    requires
        adam_updated(pow, sqrt, start, params, grads, middle, stepped),
        adam_updated(pow, sqrt, middle, stepped, again, end, last),
    ensures
        middle.iteration == start.iteration + 1,
        end.iteration == start.iteration + 2,
        end.learning_rate == start.learning_rate,
        end.beta1 == start.beta1,
        end.beta2 == start.beta2,
        end.epsilon == start.epsilon,
        lengths_agree(start, params, grads) ==> lengths_agree(middle, stepped, grads),
        lengths_agree(start, params, grads) ==> lengths_agree(end, last, grads),
{
}

impl<
    T: Copy + core::convert::From<u8> + core::ops::Add<Output = T> + core::ops::Sub<Output = T> + core::ops::Mul<
        Output = T,
    > + core::ops::Div<Output = T>,
> AdamOptimizer<T> {
    /// Moves every parameter one step against its gradient and advances both
    /// moment estimates; see [`adam_step`] for the arithmetic.
    ///
    /// `pow(b, t)` must raise `b` to the power `t` and `sqrt(x)` must take the
    /// square root of `x`; `one` in the formulas is `T::from(1)`. The same
    /// exponent, the iteration counter before the call, serves every
    /// parameter, and the counter then grows by one, once.
    ///
    /// `params`, `grads` and both moment estimates must hold equally many
    /// elements; otherwise the update is refused and nothing changes.
    pub fn update<P: Fn(T, usize) -> T, S: Fn(T) -> T>(
        &mut self,
        params: &mut [T],
        grads: &[T],
        pow: P,
        sqrt: S,
    ) -> (res: Result<(), OptimError>)
        requires
            old(self)@.iteration < usize::MAX,
            arithmetic_total::<T>(),
            forall|base: T, exponent: usize| #[trigger] call_requires(pow, (base, exponent)),
            forall|x: T| #[trigger] call_requires(sqrt, (x,)),
        ensures
            final(params)@.len() == old(params)@.len(),
            !lengths_agree(old(self)@, old(params)@, grads@) ==> res == Err::<(), OptimError>(
                OptimError::LengthMismatch,
            ) && final(self)@ == old(self)@ && final(params)@ == old(params)@,
            lengths_agree(old(self)@, old(params)@, grads@) ==> res == Ok::<(), OptimError>(()) && adam_updated(
                pow,
                sqrt,
                old(self)@,
                old(params)@,
                grads@,
                final(self)@,
                final(params)@,
            ),
    {
        let size: usize = params.len();
        if size != grads.len() || size != self.m.len() || size != self.v.len() {
            return Err(OptimError::LengthMismatch);
        }
        let one = T::from(1u8);
        let mut i: usize = 0;
        while i < size
            invariant
                i <= size,
                size == grads@.len(),
                size == params@.len(),
                size == old(params)@.len(),
                size == self.m@.len(),
                size == self.v@.len(),
                size == old(self).m@.len(),
                size == old(self).v@.len(),
                self.learning_rate == old(self).learning_rate,
                self.beta1 == old(self).beta1,
                self.beta2 == old(self).beta2,
                self.epsilon == old(self).epsilon,
                self.iteration == old(self).iteration,
                arithmetic_total::<T>(),
                forall|base: T, exponent: usize| #[trigger] call_requires(pow, (base, exponent)),
                forall|x: T| #[trigger] call_requires(sqrt, (x,)),
                forall|j: int| i <= j < size ==> #[trigger] params@[j] == old(params)@[j],
                forall|j: int| i <= j < size ==> #[trigger] self.m@[j] == old(self).m@[j],
                forall|j: int| i <= j < size ==> #[trigger] self.v@[j] == old(self).v@[j],
                forall|j: int|
                    0 <= j < i ==> adam_step(
                        pow,
                        sqrt,
                        old(self)@,
                        one,
                        j,
                        old(params)@[j],
                        grads@[j],
                        self.m@[j],
                        self.v@[j],
                        #[trigger] params@[j],
                    ),
            decreases size - i,
        {
            let grad = grads[i];
            let m = first_moment_of(one, self.beta1, self.m[i], grad);
            let v = second_moment_of(one, self.beta2, self.v[i], grad);
            let m_hat = bias_corrected_of(&pow, one, self.beta1, self.iteration, m);
            let v_hat = bias_corrected_of(&pow, one, self.beta2, self.iteration, v);
            let next = descent_of(&sqrt, self.learning_rate, self.epsilon, m_hat, v_hat, params[i]);
            assert(bias_corrected(pow, one, old(self)@.beta1, old(self)@.iteration, m, m_hat) && bias_corrected(
                pow,
                one,
                old(self)@.beta2,
                old(self)@.iteration,
                v,
                v_hat,
            ));
            self.m[i] = m;
            self.v[i] = v;
            params[i] = next;
            assert(adam_step(
                pow,
                sqrt,
                old(self)@,
                one,
                i as int,
                old(params)@[i as int],
                grads@[i as int],
                self.m@[i as int],
                self.v@[i as int],
                params@[i as int],
            ));
            i += 1;
        }
        self.iteration += 1;
        Ok(())
    }
}

} // verus!

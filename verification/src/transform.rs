//! Payloads and the transformers that rewrite them.

use std::sync::Arc;
use vstd::prelude::*;
use vstd::slice::slice_subrange;

verus! {

/// A payload after a transformer has rewritten it.
#[derive(Debug)]
pub struct TransformedData {
    pub data: Vec<u8>,
}

impl View for TransformedData {
    type V = Seq<u8>;

    open spec fn view(&self) -> Seq<u8> {
        self.data@
    }
}

/// Why a transformer gave up on a payload.
#[derive(Debug)]
pub struct TransformError {
    pub reason: String,
}

/// What a step hands on, as mathematics: the bytes, or the error.
pub type Outcome = Result<Seq<u8>, TransformError>;

/// The outcome that a returned value stands for.
pub open spec fn outcome_of(r: Result<TransformedData, TransformError>) -> Outcome {
    match r {
        Ok(t) => Ok(t@),
        Err(e) => Err(e),
    }
}

/// A step of a route's chain: a fallible function on payloads. One
/// transformer may serve many routes at once, so it is shared and only read.
pub trait Transformer: Send + Sync {
    /// Whether `transform` may answer `input` with `outcome`. A transformer
    /// says here what it does. One that is written where nothing is proved
    /// cannot say it and leaves this as it is: every outcome is allowed, so
    /// that nothing is claimed of a transformer that nobody has checked.
    open spec fn maps(&self, input: Seq<u8>, outcome: Outcome) -> bool {
        true
    }

    fn transform(&self, input: &[u8]) -> (r: Result<TransformedData, TransformError>)
        ensures
            self.maps(input@, outcome_of(r)),
    ;
}

/// Copies a payload window by window; the windows have a fixed size, the last
/// one is cut to what is left.
pub struct FileTransformer {
    chunk_size: usize,
}

impl FileTransformer {
    /// The size of a window, in bytes.
    pub closed spec fn chunk_size(&self) -> usize {
        self.chunk_size
    }

    #[verifier::type_invariant]
    spec fn positive(&self) -> bool {
        self.chunk_size >= 1
    }

    /// A transformer that copies in windows of `chunk_size` bytes. A window
    /// holds at least one byte: with none, no copy would ever be done.
    pub fn new(chunk_size: usize) -> (t: Self)
        requires
            chunk_size >= 1,
        ensures
            t.chunk_size() == chunk_size,
    {
        Self { chunk_size }
    }
}

impl Transformer for FileTransformer {
    open spec fn maps(&self, input: Seq<u8>, outcome: Outcome) -> bool {
        outcome == Ok::<Seq<u8>, TransformError>(input)
    }

    /// The copy holds the bytes of the input, all of them and in their
    /// order, whatever the size of the windows.
    fn transform(&self, input: &[u8]) -> (r: Result<TransformedData, TransformError>)
        ensures
            r matches Ok(copy) && copy@ == input@,
    {
        proof {
            use_type_invariant(self);
        }
        let mut data: Vec<u8> = Vec::new();
        let mut start: usize = 0;
        while start < input.len()
            invariant
                self.chunk_size >= 1,
                start <= input.len(),
                data@ == input@.subrange(0, start as int),
            decreases input.len() - start,
        {
            let end: usize = if input.len() - start > self.chunk_size {
                start + self.chunk_size
            } else {
                input.len()
            };
            data.extend_from_slice(slice_subrange(input, start, end));
            start = end;
        }
        assert(data@ =~= input@);
        Ok(TransformedData { data })
    }
}

/// A transformer as a route holds it: shared, read only, and possibly also
/// a step of other routes.
pub struct Step {
    pub transformer: Arc<dyn Transformer>,
}

/// Puts `transformer` behind a shared pointer with `Arc::new` and lets the
/// pointer forget which type it points to, which is the unsizing of
/// `Arc<T>` to `Arc<dyn Transformer>`. A call through such a pointer is a
/// call of the method of the value behind it, so the step maps what the
/// transformer maps.
#[verifier::external_body]
fn share<T: Transformer + 'static>(transformer: T) -> (step: Step)
    ensures
        forall|input: Seq<u8>, outcome: Outcome| #[trigger]
            step.maps(input, outcome) == transformer.maps(input, outcome),
{
    Step { transformer: Arc::new(transformer) }
}

impl Step {
    /// A step that does what `transformer` does.
    pub fn of<T: Transformer + 'static>(transformer: T) -> (step: Step)
        ensures
            forall|input: Seq<u8>, outcome: Outcome| #[trigger]
                step.maps(input, outcome) == transformer.maps(input, outcome),
    {
        share(transformer)
    }
}

impl Transformer for Step {
    /// A step does what its transformer does.
    open spec fn maps(&self, input: Seq<u8>, outcome: Outcome) -> bool {
        self.transformer.maps(input, outcome)
    }

    fn transform(&self, input: &[u8]) -> (r: Result<TransformedData, TransformError>) {
        self.transformer.transform(input)
    }
}

/// Whether running `chain` on `input` may end in `outcome`: the steps are
/// taken once each and in their order, each is fed what the one before it
/// gave, and the first failure is the outcome of the whole. An empty chain
/// hands the input on as it is.
pub open spec fn chain_maps<T: Transformer>(
    chain: Seq<T>,
    input: Seq<u8>,
    outcome: Outcome,
) -> bool
    decreases chain.len(),
{
    if chain.len() == 0 {
        outcome == Ok::<Seq<u8>, TransformError>(input)
    } else {
        let before = chain.drop_last();
        ||| exists|mid: Seq<u8>|
            chain_maps(before, input, Ok(mid)) && #[trigger] chain.last().maps(mid, outcome)
        ||| outcome is Err && chain_maps(before, input, outcome)
    }
}

/// One more step after a run that went well.
proof fn lemma_chain_step<T: Transformer>(
    chain: Seq<T>,
    input: Seq<u8>,
    mid: Seq<u8>,
    outcome: Outcome,
)
    requires
        chain.len() > 0,
        chain_maps(chain.drop_last(), input, Ok(mid)),
        chain.last().maps(mid, outcome),
    ensures
        chain_maps(chain, input, outcome),
{
}

/// A failure after some steps is the failure of every longer run.
proof fn lemma_failure_is_final<T: Transformer>(
    chain: Seq<T>,
    done: int,
    input: Seq<u8>,
    outcome: Outcome,
)
    requires
        0 <= done <= chain.len(),
        outcome is Err,
        chain_maps(chain.take(done), input, outcome),
    ensures
        chain_maps(chain, input, outcome),
    decreases chain.len() - done,
{
    if done < chain.len() {
        assert(chain.take(done + 1).drop_last() =~= chain.take(done));
        lemma_failure_is_final(chain, done + 1, input, outcome);
    } else {
        assert(chain.take(done) =~= chain);
    }
}

/// Whether `payloads` is what a run of `chain` without a failure passes
/// along: the input first, then what each step made of the payload before
/// it, one payload for each step, in the order of the steps.
pub open spec fn is_trace<T: Transformer>(chain: Seq<T>, payloads: Seq<Seq<u8>>) -> bool {
    &&& payloads.len() == chain.len() + 1
    &&& forall|i: int|
        #![trigger chain[i]]
        0 <= i < chain.len() ==> chain[i].maps(payloads[i], Ok(payloads[i + 1]))
}

/// A run that ends well has a trace.
proof fn lemma_trace_of_run<T: Transformer>(
    chain: Seq<T>,
    input: Seq<u8>,
    output: Seq<u8>,
) -> (payloads: Seq<Seq<u8>>)
    requires
        chain_maps(chain, input, Ok(output)),
    ensures
        is_trace(chain, payloads),
        payloads[0] == input,
        payloads.last() == output,
    decreases chain.len(),
{
    if chain.len() == 0 {
        seq![input]
    } else {
        let before = chain.drop_last();
        let mid = choose|mid: Seq<u8>|
            chain_maps(before, input, Ok(mid)) && #[trigger] chain.last().maps(mid, Ok(output));
        let shorter = lemma_trace_of_run(before, input, mid);
        let payloads = shorter.push(output);
        assert forall|i: int| #![trigger chain[i]] 0 <= i < chain.len() implies chain[i].maps(
            payloads[i],
            Ok(payloads[i + 1]),
        ) by {
            if i < before.len() {
                assert(before[i] == chain[i]);
            }
        }
        payloads
    }
}

/// A trace is the trace of a run that ends well.
proof fn lemma_run_of_trace<T: Transformer>(chain: Seq<T>, payloads: Seq<Seq<u8>>)
    requires
        is_trace(chain, payloads),
    ensures
        chain_maps(chain, payloads[0], Ok(payloads.last())),
    decreases chain.len(),
{
    if chain.len() > 0 {
        let before = chain.drop_last();
        let shorter = payloads.drop_last();
        assert(is_trace(before, shorter));
        lemma_run_of_trace(before, shorter);
        assert(chain[chain.len() - 1].maps(
            payloads[chain.len() - 1],
            Ok(payloads[chain.len() - 1 + 1]),
        ));
        lemma_chain_step(chain, payloads[0], shorter.last(), Ok(payloads.last()));
    }
}

/// A chain of N steps gives `output` for `input` exactly where there are
/// N + 1 payloads, `input` the first and `output` the last, such that each
/// step, taken once and in the declared order, makes the next payload of the
/// one before.
pub proof fn lemma_chain_applies_each_step_once<T: Transformer>(
    chain: Seq<T>,
    input: Seq<u8>,
    output: Seq<u8>,
)
    ensures
        chain_maps(chain, input, Ok(output)) <==> exists|payloads: Seq<Seq<u8>>|
            #[trigger] is_trace(chain, payloads) && payloads[0] == input && payloads.last()
                == output,
{
    if chain_maps(chain, input, Ok(output)) {
        let payloads = lemma_trace_of_run(chain, input, output);
    }
    if exists|payloads: Seq<Seq<u8>>|
        #[trigger] is_trace(chain, payloads) && payloads[0] == input && payloads.last() == output {
        let payloads = choose|payloads: Seq<Seq<u8>>|
            #[trigger] is_trace(chain, payloads) && payloads[0] == input && payloads.last()
                == output;
        lemma_run_of_trace(chain, payloads);
    }
}

/// A chain fails with `error` exactly where some step fails with it on what
/// the steps before it, all of which went well, have made of the input; the
/// steps behind it are not taken.
pub proof fn lemma_chain_fails_at_first_failure<T: Transformer>(
    chain: Seq<T>,
    input: Seq<u8>,
    error: TransformError,
)
    ensures
        chain_maps(chain, input, Err(error)) <==> exists|at: int, before: Seq<u8>|
            0 <= at < chain.len() && #[trigger] chain_maps(chain.take(at), input, Ok(before))
                && chain[at].maps(before, Err(error)),
    decreases chain.len(),
{
    let fails = exists|at: int, before: Seq<u8>|
        0 <= at < chain.len() && #[trigger] chain_maps(chain.take(at), input, Ok(before))
            && chain[at].maps(before, Err(error));
    if chain.len() > 0 {
        let shorter = chain.drop_last();
        lemma_chain_fails_at_first_failure(shorter, input, error);
        if chain_maps(chain, input, Err(error)) {
            if exists|mid: Seq<u8>|
                chain_maps(shorter, input, Ok(mid)) && #[trigger] chain.last().maps(
                    mid,
                    Err(error),
                ) {
                let mid = choose|mid: Seq<u8>|
                    chain_maps(shorter, input, Ok(mid)) && #[trigger] chain.last().maps(
                        mid,
                        Err(error),
                    );
            } else {
                let (at, before) = choose|at: int, before: Seq<u8>|
                    0 <= at < shorter.len() && #[trigger] chain_maps(
                        shorter.take(at),
                        input,
                        Ok(before),
                    ) && shorter[at].maps(before, Err(error));
                assert(shorter.take(at) =~= chain.take(at));
            }
        }
        if fails {
            let (at, before) = choose|at: int, before: Seq<u8>|
                0 <= at < chain.len() && #[trigger] chain_maps(chain.take(at), input, Ok(before))
                    && chain[at].maps(before, Err(error));
            assert(chain.take(at + 1).drop_last() =~= chain.take(at));
            lemma_chain_step(chain.take(at + 1), input, before, Err(error));
            lemma_failure_is_final(chain, at + 1, input, Err(error));
        }
    }
}

/// Whether `first` and then `second`, each run as a chain of its own, may
/// take `input` to `outcome`: `second` starts from what `first` gave, and a
/// failure of `first` is the end.
pub open spec fn chain_then<T: Transformer>(
    first: Seq<T>,
    second: Seq<T>,
    input: Seq<u8>,
    outcome: Outcome,
) -> bool {
    ||| exists|mid: Seq<u8>| #[trigger]
        chain_maps(first, input, Ok(mid)) && chain_maps(second, mid, outcome)
    ||| outcome is Err && chain_maps(first, input, outcome)
}

/// Whether step `first` and then step `second` may take `input` to `outcome`.
pub open spec fn step_then<T: Transformer>(
    first: T,
    second: T,
    input: Seq<u8>,
    outcome: Outcome,
) -> bool {
    ||| exists|mid: Seq<u8>| #[trigger] first.maps(input, Ok(mid)) && second.maps(mid, outcome)
    ||| outcome is Err && first.maps(input, outcome)
}

/// A step that answers each input in one way only.
pub open spec fn single_valued<T: Transformer>(step: T) -> bool {
    forall|input: Seq<u8>, a: Outcome, b: Outcome|
        #[trigger] step.maps(input, a) && #[trigger] step.maps(input, b) ==> a == b
}

/// A chain without steps is the identity: it ends well, with the input.
pub proof fn lemma_empty_chain_is_identity<T: Transformer>(input: Seq<u8>, outcome: Outcome)
    ensures
        chain_maps(Seq::<T>::empty(), input, outcome) <==> outcome == Ok::<
            Seq<u8>,
            TransformError,
        >(input),
{
}

/// A chain of one step does what the step does.
pub proof fn lemma_chain_of_one<T: Transformer>(step: T, input: Seq<u8>, outcome: Outcome)
    ensures
        chain_maps(seq![step], input, outcome) <==> step.maps(input, outcome),
{
    let chain = seq![step];
    reveal_with_fuel(chain_maps, 2);
    assert(chain.last() == step);
}

/// Running one chain after another is running the two as one chain.
proof fn lemma_chain_joins<T: Transformer>(
    first: Seq<T>,
    second: Seq<T>,
    input: Seq<u8>,
    outcome: Outcome,
)
    requires
        chain_then(first, second, input, outcome),
    ensures
        chain_maps(first + second, input, outcome),
    decreases second.len(),
{
    let whole = first + second;
    if second.len() > 0 {
        let shorter = second.drop_last();
        assert(whole.drop_last() =~= first + shorter);
        if exists|mid: Seq<u8>| #[trigger]
            chain_maps(first, input, Ok(mid)) && chain_maps(second, mid, outcome) {
            let mid = choose|mid: Seq<u8>| #[trigger]
                chain_maps(first, input, Ok(mid)) && chain_maps(second, mid, outcome);
            if exists|m: Seq<u8>|
                chain_maps(shorter, mid, Ok(m)) && #[trigger] second.last().maps(m, outcome) {
                let m = choose|m: Seq<u8>|
                    chain_maps(shorter, mid, Ok(m)) && #[trigger] second.last().maps(m, outcome);
                lemma_chain_joins(first, shorter, input, Ok(m));
                lemma_chain_step(whole, input, m, outcome);
            } else {
                lemma_chain_joins(first, shorter, input, outcome);
            }
        } else {
            lemma_chain_joins(first, shorter, input, outcome);
        }
    }
}

/// A run of two chains written as one can be cut where the first ends.
proof fn lemma_chain_splits<T: Transformer>(
    first: Seq<T>,
    second: Seq<T>,
    input: Seq<u8>,
    outcome: Outcome,
)
    requires
        chain_maps(first + second, input, outcome),
    ensures
        chain_then(first, second, input, outcome),
    decreases second.len(),
{
    let whole = first + second;
    if second.len() == 0 {
        if outcome is Ok {
            assert(chain_maps(second, outcome->Ok_0, outcome));
        }
    } else {
        let shorter = second.drop_last();
        assert(whole.drop_last() =~= first + shorter);
        if exists|m: Seq<u8>|
            chain_maps(first + shorter, input, Ok(m)) && #[trigger] whole.last().maps(m, outcome) {
            let m = choose|m: Seq<u8>|
                chain_maps(first + shorter, input, Ok(m)) && #[trigger] whole.last().maps(
                    m,
                    outcome,
                );
            lemma_chain_splits(first, shorter, input, Ok(m));
            let mid = choose|mid: Seq<u8>| #[trigger]
                chain_maps(first, input, Ok(mid)) && chain_maps(shorter, mid, Ok(m));
            lemma_chain_step(second, mid, m, outcome);
        } else {
            lemma_chain_splits(first, shorter, input, outcome);
        }
    }
}

/// A chain applies its steps in the order in which they were declared:
/// running `first + second` is running `first` and then `second` on what it
/// gave. Taken step by step, the outcome of a chain of N steps is that of
/// applying each of them once, the first one first.
pub proof fn lemma_chain_composes<T: Transformer>(
    first: Seq<T>,
    second: Seq<T>,
    input: Seq<u8>,
    outcome: Outcome,
)
    ensures
        chain_maps(first + second, input, outcome) <==> chain_then(first, second, input, outcome),
{
    if chain_maps(first + second, input, outcome) {
        lemma_chain_splits(first, second, input, outcome);
    }
    if chain_then(first, second, input, outcome) {
        lemma_chain_joins(first, second, input, outcome);
    }
}

/// A chain of two steps does what the first and then the second do.
pub proof fn lemma_chain_of_two<T: Transformer>(
    first: T,
    second: T,
    input: Seq<u8>,
    outcome: Outcome,
)
    ensures
        chain_maps(seq![first, second], input, outcome) <==> step_then(
            first,
            second,
            input,
            outcome,
        ),
{
    let chain = seq![first, second];
    assert(chain.drop_last() =~= seq![first]);
    lemma_chain_of_one(first, input, outcome);
    assert forall|mid: Seq<u8>|
        chain_maps(seq![first], input, Ok(mid)) <==> #[trigger] first.maps(input, Ok(mid)) by {
        lemma_chain_of_one(first, input, Ok(mid));
    }
    if step_then(first, second, input, outcome) {
        if exists|mid: Seq<u8>| #[trigger]
            first.maps(input, Ok(mid)) && second.maps(mid, outcome) {
            let mid = choose|mid: Seq<u8>| #[trigger]
                first.maps(input, Ok(mid)) && second.maps(mid, outcome);
            lemma_chain_step(chain, input, mid, outcome);
        }
    }
    if chain_maps(chain, input, outcome) {
        if exists|mid: Seq<u8>|
            chain_maps(seq![first], input, Ok(mid)) && #[trigger] second.maps(mid, outcome) {
            let mid = choose|mid: Seq<u8>|
                chain_maps(seq![first], input, Ok(mid)) && #[trigger] second.maps(mid, outcome);
            assert(first.maps(input, Ok(mid)));
        }
    }
}

/// Order is part of a chain: where two steps taken by hand in one order
/// never give what they give in the other, the chain of the two in one
/// order never gives what the chain in the other order gives.
pub proof fn lemma_order_matters<T: Transformer>(
    a: T,
    b: T,
    input: Seq<u8>,
    outcome: Outcome,
)
    requires
        !(step_then(a, b, input, outcome) && step_then(b, a, input, outcome)),
    ensures
        !(chain_maps(seq![a, b], input, outcome) && chain_maps(seq![b, a], input, outcome)),
{
    lemma_chain_of_two(a, b, input, outcome);
    lemma_chain_of_two(b, a, input, outcome);
}

/// Where every step answers each input in one way only, so does the chain:
/// its outcome is then fixed by the steps, their order and the input.
pub proof fn lemma_chain_single_valued<T: Transformer>(
    chain: Seq<T>,
    input: Seq<u8>,
    a: Outcome,
    b: Outcome,
)
    requires
        forall|i: int| 0 <= i < chain.len() ==> single_valued(#[trigger] chain[i]),
        chain_maps(chain, input, a),
        chain_maps(chain, input, b),
    ensures
        a == b,
    decreases chain.len(),
{
    if chain.len() > 0 {
        let before = chain.drop_last();
        let last = chain.last();
        assert(forall|i: int| 0 <= i < before.len() ==> single_valued(#[trigger] before[i]));
        let a_last = exists|m: Seq<u8>|
            chain_maps(before, input, Ok(m)) && #[trigger] last.maps(m, a);
        let b_last = exists|m: Seq<u8>|
            chain_maps(before, input, Ok(m)) && #[trigger] last.maps(m, b);
        if a_last && b_last {
            let ma = choose|m: Seq<u8>|
                chain_maps(before, input, Ok(m)) && #[trigger] last.maps(m, a);
            let mb = choose|m: Seq<u8>|
                chain_maps(before, input, Ok(m)) && #[trigger] last.maps(m, b);
            lemma_chain_single_valued(before, input, Ok(ma), Ok(mb));
        } else if a_last {
            let ma = choose|m: Seq<u8>|
                chain_maps(before, input, Ok(m)) && #[trigger] last.maps(m, a);
            lemma_chain_single_valued(before, input, Ok(ma), b);
        } else if b_last {
            let mb = choose|m: Seq<u8>|
                chain_maps(before, input, Ok(m)) && #[trigger] last.maps(m, b);
            lemma_chain_single_valued(before, input, a, Ok(mb));
        } else {
            lemma_chain_single_valued(before, input, a, b);
        }
    }
}

/// Runs a payload through a chain: each step once, in the declared order,
/// each on what the step before it gave. The first failure ends the run and
/// is its result; nothing of the payload is handed on then.
pub fn run_chain<T: Transformer>(chain: &Vec<T>, input: Vec<u8>) -> (r: Result<
    TransformedData,
    TransformError,
>)
    ensures
        chain_maps(chain@, input@, outcome_of(r)),
        chain@.len() == 0 ==> (r matches Ok(payload) && payload@ == input@),
{
    let mut current = TransformedData { data: input };
    let mut i: usize = 0;
    while i < chain.len()
        invariant
            i <= chain.len(),
            chain_maps(chain@.take(i as int), input@, Ok(current@)),
        decreases chain.len() - i,
    {
        let step = chain[i].transform(current.data.as_slice());
        proof {
            assert(chain@.take(i + 1).drop_last() =~= chain@.take(i as int));
            lemma_chain_step(chain@.take(i + 1), input@, current@, outcome_of(step));
        }
        match step {
            Ok(next) => {
                current = next;
            },
            Err(e) => {
                proof {
                    lemma_failure_is_final(chain@, i + 1, input@, Err(e));
                }
                return Err(e);
            },
        }
        i = i + 1;
    }
    assert(chain@.take(i as int) =~= chain@);
    Ok(current)
}

} // verus!

//! What all item outcomes have in common, the totals of a sequence of
//! outcomes, and the log in which a running batch collects them.

use vstd::prelude::*;
use crate::error::EngineError;

verus! {

/// The outcome of one item of a batch: a success or a failure.
pub trait Outcome: Sized {
    /// Whether the item took effect.
    spec fn succeeded(self) -> bool;

    /// The amount that the item moved on the ledger: the amount of a
    /// successful transfer or burn, and 0 for a failure and for an item of a
    /// kind that moves no asset.
    spec fn effected(self) -> int;

    /// Whether the item took effect.
    fn is_success(&self) -> (yes: bool)
        ensures
            yes == self.succeeded(),
    ;

    /// The amount that the item moved on the ledger.
    fn amount_effected(&self) -> (amount: i128)
        ensures
            amount == self.effected(),
    ;
}

/// The number of successes in `results`.
pub open spec fn successes<O: Outcome>(results: Seq<O>) -> nat
    decreases results.len(),
{
    if results.len() == 0 {
        0
    } else {
        successes(results.drop_last()) + if results.last().succeeded() {
            1nat
        } else {
            0nat
        }
    }
}

/// The number of failures in `results`.
pub open spec fn failures<O: Outcome>(results: Seq<O>) -> nat
    decreases results.len(),
{
    if results.len() == 0 {
        0
    } else {
        failures(results.drop_last()) + if results.last().succeeded() {
            0nat
        } else {
            1nat
        }
    }
}

/// The sum of the amounts that the successes in `results` moved.
pub open spec fn volume<O: Outcome>(results: Seq<O>) -> int
    decreases results.len(),
{
    if results.len() == 0 {
        0
    } else {
        volume(results.drop_last()) + results.last().effected()
    }
}

/// Every item is either a success or a failure: the two counts add up to the
/// number of outcomes.
pub proof fn lemma_counts_cover<O: Outcome>(results: Seq<O>)
    ensures
        successes(results) + failures(results) == results.len(),
    decreases results.len(),
{
    if results.len() > 0 {
        lemma_counts_cover(results.drop_last());
    }
}

/// The totals of `results` with one more outcome at the end.
pub proof fn lemma_totals_push<O: Outcome>(results: Seq<O>, outcome: O)
    ensures
        successes(results.push(outcome)) == successes(results) + if outcome.succeeded() {
            1nat
        } else {
            0nat
        },
        failures(results.push(outcome)) == failures(results) + if outcome.succeeded() {
            0nat
        } else {
            1nat
        },
        volume(results.push(outcome)) == volume(results) + outcome.effected(),
{
    assert(results.push(outcome).drop_last() =~= results);
}

/// The outcomes of a running batch, in request order, with their totals.
pub struct BatchLog<O: Outcome> {
    results: Vec<O>,
    successful: u64,
    failed: u64,
    volume: i128,
}

impl<O: Outcome> View for BatchLog<O> {
    type V = Seq<O>;

    /// The outcomes recorded so far.
    closed spec fn view(&self) -> Seq<O> {
        self.results@
    }
}

impl<O: Outcome> BatchLog<O> {
    /// The totals stand for the recorded outcomes.
    pub closed spec fn wf(&self) -> bool {
        &&& self.successful == successes(self.results@)
        &&& self.failed == failures(self.results@)
        &&& self.volume == volume(self.results@)
    }

    /// An empty log.
    pub fn new() -> (log: BatchLog<O>)
        ensures
            log.wf(),
            log@ == Seq::<O>::empty(),
    {
        BatchLog { results: Vec::new(), successful: 0, failed: 0, volume: 0 }
    }

    /// Appends `outcome` and adds it to the totals.
    ///
    /// Fails with `Overflow`, and leaves the log as it was, exactly when the
    /// volume with the outcome's amount would leave the range of `i128`.
    pub fn record(&mut self, outcome: O) -> (r: Result<(), EngineError>)
        requires
            old(self).wf(),
        ensures
            final(self).wf(),
            i128::MIN <= volume(old(self)@) + outcome.effected() <= i128::MAX ==> r is Ok
                && final(self)@ == old(self)@.push(outcome),
            !(i128::MIN <= volume(old(self)@) + outcome.effected() <= i128::MAX) ==> r == Err::<
                (),
                EngineError,
            >(EngineError::Overflow) && final(self)@ == old(self)@,
    {
        let success = outcome.is_success();
        let amount = outcome.amount_effected();
        match self.volume.checked_add(amount) {
            None => Err(EngineError::Overflow),
            Some(volume) => {
                proof {
                    lemma_totals_push(self.results@, outcome);
                    lemma_counts_cover(self.results@);
                }
                self.results.push(outcome);
                // Neither count exceeds the number of outcomes, which fits a
                // `usize`: the additions below cannot overflow.
                let _recorded: usize = self.results.len();
                if success {
                    self.successful = self.successful + 1;
                } else {
                    self.failed = self.failed + 1;
                }
                self.volume = volume;
                Ok(())
            },
        }
    }

    /// Appends an outcome that moved nothing, and counts it.
    pub(crate) fn note(&mut self, outcome: O)
        requires
            old(self).wf(),
            outcome.effected() == 0,
        ensures
            final(self).wf(),
            final(self)@ == old(self)@.push(outcome),
    {
        let success = outcome.is_success();
        proof {
            lemma_totals_push(self.results@, outcome);
            lemma_counts_cover(self.results@);
        }
        self.results.push(outcome);
        // Neither count exceeds the number of outcomes, which fits a `usize`:
        // the additions below cannot overflow.
        let _recorded: usize = self.results.len();
        if success {
            self.successful = self.successful + 1;
        } else {
            self.failed = self.failed + 1;
        }
    }

    /// The number of outcomes recorded.
    pub fn total(&self) -> (n: u64)
        requires
            self.wf(),
        ensures
            n == self@.len(),
            n == successes(self@) + failures(self@),
    {
        proof {
            lemma_counts_cover(self.results@);
        }
        self.results.len() as u64
    }

    /// The number of successes recorded.
    pub fn successful(&self) -> (n: u64)
        requires
            self.wf(),
        ensures
            n == successes(self@),
    {
        self.successful
    }

    /// The number of failures recorded.
    pub fn failed(&self) -> (n: u64)
        requires
            self.wf(),
        ensures
            n == failures(self@),
    {
        self.failed
    }

    /// The sum of the amounts that the recorded successes moved.
    pub fn volume(&self) -> (v: i128)
        requires
            self.wf(),
        ensures
            v == volume(self@),
    {
        self.volume
    }

    /// Hands out the recorded outcomes.
    pub fn into_results(self) -> (results: Vec<O>)
        ensures
            results@ == self@,
    {
        self.results
    }
}

/// Appends to `events` one event for each outcome in `results`, in order:
/// the event that `wrap` makes of it, which is `item` of it.
pub(crate) fn emit_items<O: Copy, E, W: Fn(O) -> E>(
    events: &mut Vec<E>,
    results: &Vec<O>,
    wrap: W,
    Ghost(item): Ghost<spec_fn(O) -> E>,
)
    requires
        forall|o: O| #[trigger] call_requires(wrap, (o,)),
        forall|o: O, e: E| #[trigger] call_ensures(wrap, (o,), e) ==> e == item(o),
    ensures
        final(events)@ == old(events)@ + results@.map_values(item),
{
    let ghost items = results@.map_values(item);
    let mut i: usize = 0;
    while i < results.len()
        invariant
            0 <= i <= results@.len(),
            items == results@.map_values(item),
            events@ == old(events)@ + items.take(i as int),
            forall|o: O| #[trigger] call_requires(wrap, (o,)),
            forall|o: O, e: E| #[trigger] call_ensures(wrap, (o,), e) ==> e == item(o),
        decreases results@.len() - i,
    {
        events.push(wrap(results[i]));
        assert(items.take(i + 1) =~= items.take(i as int).push(items[i as int]));
        i = i + 1;
    }
    assert(items.take(items.len() as int) =~= items);
}

} // verus!

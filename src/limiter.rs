use vstd::prelude::*;
use crate::tier::{Quota, quota_valid, quotas_valid, quotas_equal, Tier};
use leaky_bucket::RateLimiter;

verus! {

#[verifier::external_type_specification]
#[verifier::external_body]
pub struct ExRateLimiter(RateLimiter);

/// Relies on leaky_bucket's `RateLimiter::builder`: a bucket that starts with
/// `max` permits, holds at most `max`, and gains `refill` every `interval_ms`.
/// The builder panics on a zero refill or a zero interval.
#[verifier::external_body]
fn new_limiter(q: Quota) -> (r: RateLimiter)
    requires
        quota_valid(q),
{
    RateLimiter::builder()
        .initial(q.max)
        .max(q.max)
        .refill(q.refill)
        .interval(std::time::Duration::from_millis(q.interval_ms))
        .build()
}

/// Relies on leaky_bucket's `RateLimiter::try_acquire`: takes one permit if the
/// bucket has one. The answer depends on the time, so nothing is promised.
#[verifier::external_body]
fn try_acquire_one(l: &RateLimiter) -> (r: bool) {
    l.try_acquire(1)
}

/// The buckets that one tenant's requests must all pass, built from a tier.
pub struct Cascade {
    tier: String,
    quotas: Vec<Quota>,
    limiters: Vec<RateLimiter>,
    id: Ghost<nat>,
}

/// What a cascade was built from (the tier's name and its quotas), how many
/// buckets it holds, and which build made it.
pub ghost struct CascadeV {
    pub tier: Seq<char>,
    pub quotas: Seq<Quota>,
    pub buckets: nat,
    pub id: nat,
}

impl View for Cascade {
    type V = CascadeV;

    closed spec fn view(&self) -> CascadeV {
        CascadeV {
            tier: self.tier@,
            quotas: self.quotas@,
            buckets: self.limiters@.len(),
            id: self.id@,
        }
    }
}

/// Every bucket was asked, and each gave a permit.
pub open spec fn all_granted(answers: Seq<bool>, buckets: nat) -> bool {
    answers.len() == buckets && forall|i: int| 0 <= i < answers.len() ==> #[trigger] answers[i]
}

/// The buckets were asked in order until one refused or all had given a permit.
pub open spec fn asked_in_order(answers: Seq<bool>, buckets: nat) -> bool {
    &&& answers.len() <= buckets
    &&& forall|i: int| 0 <= i < answers.len() - 1 ==> #[trigger] answers[i]
    &&& answers.len() < buckets ==> answers.len() > 0 && !answers.last()
}

impl Cascade {
    /// Builds one fresh bucket for each quota of `tier`, as build number `id`.
    pub fn build(tier: &Tier, id: Ghost<nat>) -> (r: Cascade)
        requires
            quotas_valid(tier@.quotas),
        ensures
            r@ == (CascadeV {
                tier: tier@.name,
                quotas: tier@.quotas,
                buckets: tier@.quotas.len(),
                id: id@,
            }),
    {
        let quotas = tier.quotas();
        let mut limiters: Vec<RateLimiter> = Vec::new();
        let mut i: usize = 0;
        while i < quotas.len()
            invariant
                quotas@ == tier@.quotas,
                quotas_valid(quotas@),
                i <= quotas@.len(),
                limiters@.len() == i,
            decreases quotas@.len() - i,
        {
            limiters.push(new_limiter(quotas[i]));
            i = i + 1;
        }
        Cascade { tier: tier.name().clone(), quotas: quotas.clone(), limiters, id }
    }

    /// Whether the cascade was built from `tier` as it now stands.
    pub fn built_from(&self, tier: &Tier) -> (r: bool)
        ensures
            r == (self@.tier == tier@.name && self@.quotas == tier@.quotas),
    {
        self.tier == *tier.name() && quotas_equal(&self.quotas, tier.quotas())
    }

    /// Asks each bucket in turn for one permit, and stops at the first that
    /// refuses. The request passes only if every bucket gave a permit. The
    /// buckets are not checked all first: on a denial, those asked before
    /// keep the permit they gave, and those after it are not asked. Beside
    /// the verdict it returns what each bucket asked answered, in order.
    pub fn try_acquire(&self) -> (res: (bool, Ghost<Seq<bool>>))
        ensures
            asked_in_order(res.1@, self@.buckets),
            res.0 == all_granted(res.1@, self@.buckets),
            !res.0 ==> res.1@.len() > 0 && !res.1@.last(),
    {
        let ghost mut answers: Seq<bool> = Seq::empty();
        let mut i: usize = 0;
        while i < self.limiters.len()
            invariant
                i <= self.limiters@.len(),
                answers.len() == i,
                forall|j: int| 0 <= j < answers.len() ==> #[trigger] answers[j],
            decreases self.limiters@.len() - i,
        {
            let granted = try_acquire_one(&self.limiters[i]);
            let ghost before = answers;
            proof {
                answers = answers.push(granted);
                assert(forall|j: int| 0 <= j < before.len() ==> answers[j] == before[j]);
            }
            if !granted {
                assert(!answers[answers.len() - 1]);
                assert(!all_granted(answers, self@.buckets));
                return (false, Ghost(answers));
            }
            i = i + 1;
        }
        (true, Ghost(answers))
    }
}

} // verus!

use vstd::prelude::*;

verus! {

/// One leaky bucket of a tier: it holds at most `max` permits, starts full, and
/// gains `refill` permits every `interval_ms` milliseconds.
#[derive(Clone, Copy, Debug, PartialEq, Eq, Structural)]
pub struct Quota {
    pub max: usize,
    pub refill: usize,
    pub interval_ms: u64,
}

/// A bucket can be built from the quota.
pub open spec fn quota_valid(q: Quota) -> bool {
    q.refill > 0 && q.interval_ms > 0
}

/// A tier has at least one quota, and each can be built.
pub open spec fn quotas_valid(qs: Seq<Quota>) -> bool {
    qs.len() > 0 && forall|i: int| 0 <= i < qs.len() ==> quota_valid(#[trigger] qs[i])
}

/// What the control plane reports of one tier resource.
pub struct TierResource {
    pub name: String,
    pub quotas: Vec<Quota>,
}

/// A named rate-limit policy.
pub struct Tier {
    name: String,
    quotas: Vec<Quota>,
}

pub ghost struct TierV {
    pub name: Seq<char>,
    pub quotas: Seq<Quota>,
}

impl View for Tier {
    type V = TierV;

    closed spec fn view(&self) -> TierV {
        TierV { name: self.name@, quotas: self.quotas@ }
    }
}

/// The tier that a resource describes; `None` when its quotas are not valid.
pub open spec fn resource_tier(r: TierResource) -> Option<TierV> {
    if quotas_valid(r.quotas@) {
        Some(TierV { name: r.name@, quotas: r.quotas@ })
    } else {
        None
    }
}

/// Whether two lists of quotas are equal.
pub fn quotas_equal(a: &Vec<Quota>, b: &Vec<Quota>) -> (r: bool)
    ensures
        r == (a@ == b@),
{
    if a.len() != b.len() {
        return false;
    }
    let mut i: usize = 0;
    while i < a.len()
        invariant
            a@.len() == b@.len(),
            i <= a@.len(),
            forall|j: int| 0 <= j < i ==> a@[j] == b@[j],
        decreases a@.len() - i,
    {
        if a[i] != b[i] {
            return false;
        }
        i = i + 1;
    }
    assert(a@ =~= b@);
    true
}

impl Tier {
    /// Builds the tier that a resource describes.
    pub fn from_resource(r: &TierResource) -> (t: Option<Tier>)
        ensures
            match t {
                Some(t) => resource_tier(*r) == Some(t@),
                None => resource_tier(*r).is_none(),
            },
    {
        if r.quotas.len() == 0 {
            return None;
        }
        let mut i: usize = 0;
        while i < r.quotas.len()
            invariant
                i <= r.quotas@.len(),
                forall|j: int| 0 <= j < i ==> quota_valid(#[trigger] r.quotas@[j]),
            decreases r.quotas@.len() - i,
        {
            if r.quotas[i].refill == 0 || r.quotas[i].interval_ms == 0 {
                return None;
            }
            i = i + 1;
        }
        Some(Tier { name: r.name.clone(), quotas: r.quotas.clone() })
    }

    pub fn name(&self) -> (r: &String)
        ensures
            r@ == self@.name,
    {
        &self.name
    }

    pub fn quotas(&self) -> (r: &Vec<Quota>)
        ensures
            r@ == self@.quotas,
    {
        &self.quotas
    }
}

} // verus!

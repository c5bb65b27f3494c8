//! Which hosts may be asked, and how soon again.
//!
//! The limiter holds no clock. It is told the time of each request, in
//! milliseconds on the caller's clock, and answers with the time at which
//! the request may start; waiting until then is the caller's part.

use vstd::prelude::*;
use vstd::string::StringExecFns;
use crate::text::same_text;

verus! {

/// How far apart the requests to one host are kept.
#[derive(Debug, Clone, Copy, PartialEq, Eq, Structural)]
pub enum RequestDelay {
    /// At least this many milliseconds from one start to the next.
    Fixed(u64),
}

/// Why a request got no start time.
#[derive(Debug, Clone, Copy, PartialEq, Eq, Structural)]
pub enum Refusal {
    /// The host is not among those allowed.
    NotAllowed,
    /// The start time would lie beyond what a `u64` holds.
    ClockOverflow,
}

/// What the limiter holds for one allowed host.
struct DomainPolicy {
    domain: String,
    delay: Option<RequestDelay>,
    last_start: Option<u64>,
}

/// The policy of one host as a value of mathematics: the delay it was
/// allowed with, and the start of the last request to it.
pub ghost struct Policy {
    pub delay: Option<RequestDelay>,
    pub last_start: Option<int>,
}

/// The allowed hosts, each with its policy. A host that was never allowed is
/// refused.
pub struct RateLimiter {
    policies: Vec<DomainPolicy>,
}

/// When a request that arrives at `now` may start, after one that started at
/// `last`.
pub open spec fn next_start(delay: Option<RequestDelay>, last: Option<int>, now: int) -> int {
    match (delay, last) {
        (Some(RequestDelay::Fixed(d)), Some(last)) => if now >= last + d {
            now
        } else {
            last + d
        },
        _ => now,
    }
}

/// The start times of requests to one host that arrive at `nows`, one after
/// the other, the last request before them having started at `last`.
pub open spec fn starts(delay: Option<RequestDelay>, last: Option<int>, nows: Seq<int>) -> Seq<int>
    decreases nows.len(),
{
    if nows.len() == 0 {
        Seq::empty()
    } else {
        let before = starts(delay, last, nows.drop_last());
        let previous = if before.len() > 0 {
            Some(before.last())
        } else {
            last
        };
        before.push(next_start(delay, previous, nows.last()))
    }
}

/// With a fixed delay `d`, any two requests to one host start at least `d`
/// apart, whenever they arrive: the later of them starts no sooner than
/// `d` times the number of requests between the two starts, itself included,
/// after the earlier.
pub proof fn lemma_starts_keep_delay(d: u64, last: Option<int>, nows: Seq<int>, i: int, j: int)
    requires
        0 <= i < j < nows.len(),
    ensures
        starts(Some(RequestDelay::Fixed(d)), last, nows).len() == nows.len(),
        starts(Some(RequestDelay::Fixed(d)), last, nows)[j] - starts(
            Some(RequestDelay::Fixed(d)),
            last,
            nows,
        )[i] >= (j - i) * d >= d,
    decreases nows.len(),
{
    let delay = Some(RequestDelay::Fixed(d));
    let shorter = nows.drop_last();
    lemma_starts_len(delay, last, nows);
    lemma_starts_len(delay, last, shorter);
    let all = starts(delay, last, nows);
    let before = starts(delay, last, shorter);
    assert(forall|k: int| 0 <= k < before.len() ==> all[k] == before[k]);
    assert((j - i) * d >= d) by (nonlinear_arith)
        requires
            j - i >= 1,
            d >= 0,
    ;
    if j == nows.len() - 1 {
        assert(all[j] >= before.last() + d);
        if i < j - 1 {
            lemma_starts_keep_delay(d, last, shorter, i, j - 1);
            assert((j - i) * d == (j - 1 - i) * d + d) by (nonlinear_arith);
        } else {
            assert((j - i) * d == d) by (nonlinear_arith)
                requires
                    j - i == 1,
            ;
        }
    } else {
        lemma_starts_keep_delay(d, last, shorter, i, j);
    }
}

/// Each request gets one start time.
pub proof fn lemma_starts_len(delay: Option<RequestDelay>, last: Option<int>, nows: Seq<int>)
    ensures
        starts(delay, last, nows).len() == nows.len(),
    decreases nows.len(),
{
    if nows.len() > 0 {
        lemma_starts_len(delay, last, nows.drop_last());
    }
}

/// The index of the first of `policies` from `from` on that is for `domain`;
/// `policies.len()` where there is none.
spec fn find(policies: Seq<DomainPolicy>, domain: Seq<char>, from: int) -> int
    decreases policies.len() - from,
{
    if 0 <= from < policies.len() && policies[from].domain@ != domain {
        find(policies, domain, from + 1)
    } else {
        from
    }
}

impl DomainPolicy {
    /// The policy without the host's name.
    spec fn policy(self) -> Policy {
        Policy {
            delay: self.delay,
            last_start: match self.last_start {
                Some(t) => Some(t as int),
                None => None,
            },
        }
    }
}

/// Where `domain` is found does not depend on what lies before `from`, and
/// is an index of a policy for `domain` or the length.
proof fn lemma_find(policies: Seq<DomainPolicy>, domain: Seq<char>, from: int)
    requires
        0 <= from <= policies.len(),
    ensures
        from <= find(policies, domain, from) <= policies.len(),
        find(policies, domain, from) < policies.len() ==> policies[find(
            policies,
            domain,
            from,
        )].domain@ == domain,
        forall|k: int| from <= k < find(policies, domain, from) ==> (#[trigger] policies[k]).domain@
            != domain,
    decreases policies.len() - from,
{
    if from < policies.len() && policies[from].domain@ != domain {
        lemma_find(policies, domain, from + 1);
    }
}

/// Two lists that name the same hosts in the same places find every host in
/// the same place.
proof fn lemma_find_same_names(
    a: Seq<DomainPolicy>,
    b: Seq<DomainPolicy>,
    domain: Seq<char>,
    from: int,
)
    requires
        0 <= from <= a.len(),
        a.len() == b.len(),
        forall|k: int| 0 <= k < a.len() ==> (#[trigger] a[k]).domain@ == b[k].domain@,
    ensures
        find(a, domain, from) == find(b, domain, from),
    decreases a.len() - from,
{
    if from < a.len() && a[from].domain@ != domain {
        lemma_find_same_names(a, b, domain, from + 1);
    }
}

/// What a new last policy changes: its host is found there unless it was
/// found before, and every other host is found where it was, or nowhere.
proof fn lemma_find_pushed(
    a: Seq<DomainPolicy>,
    added: DomainPolicy,
    domain: Seq<char>,
    from: int,
)
    requires
        0 <= from <= a.len(),
    ensures
        find(a, domain, from) < a.len() ==> find(a.push(added), domain, from) == find(
            a,
            domain,
            from,
        ),
        find(a, domain, from) == a.len() && added.domain@ == domain ==> find(
            a.push(added),
            domain,
            from,
        ) == a.len(),
        find(a, domain, from) == a.len() && added.domain@ != domain ==> find(
            a.push(added),
            domain,
            from,
        ) == a.len() + 1,
    decreases a.len() - from,
{
    let b = a.push(added);
    if from < a.len() {
        assert(b[from] == a[from]);
        if a[from].domain@ != domain {
            lemma_find_pushed(a, added, domain, from + 1);
        }
    } else {
        assert(b[from] == added);
        if added.domain@ != domain {
            assert(find(b, domain, from + 1) == from + 1);
        }
    }
}

/// The policies as a map: a host has the first policy that is for it.
spec fn policy_map(policies: Seq<DomainPolicy>) -> Map<Seq<char>, Policy> {
    Map::new(
        |domain: Seq<char>| find(policies, domain, 0) < policies.len(),
        |domain: Seq<char>| policies[find(policies, domain, 0)].policy(),
    )
}

/// What `put` changes for the host `domain`, where it stands in place of the
/// first policy for its own host or, where that host had none, behind all
/// policies: its own host has its policy, and every other host has what it
/// had.
proof fn lemma_policy_put_for(
    before: Seq<DomainPolicy>,
    after: Seq<DomainPolicy>,
    put: DomainPolicy,
    domain: Seq<char>,
)
    requires
        after == if find(before, put.domain@, 0) < before.len() {
            before.update(find(before, put.domain@, 0), put)
        } else {
            before.push(put)
        },
    ensures
        policy_map(after).dom().contains(domain) == policy_map(before).insert(
            put.domain@,
            put.policy(),
        ).dom().contains(domain),
        policy_map(after).dom().contains(domain) ==> policy_map(after)[domain] == policy_map(
            before,
        ).insert(put.domain@, put.policy())[domain],
{
    lemma_find(before, put.domain@, 0);
    if find(before, put.domain@, 0) < before.len() {
        lemma_find_same_names(before, after, domain, 0);
    } else {
        lemma_find_pushed(before, put, domain, 0);
    }
    lemma_find(before, domain, 0);
}

/// Putting a policy in place of the first for its host, or behind all where
/// its host had none, gives the map with that policy put in for its host.
proof fn lemma_policy_put(before: Seq<DomainPolicy>, after: Seq<DomainPolicy>, put: DomainPolicy)
    requires
        after == if find(before, put.domain@, 0) < before.len() {
            before.update(find(before, put.domain@, 0), put)
        } else {
            before.push(put)
        },
    ensures
        policy_map(after) == policy_map(before).insert(put.domain@, put.policy()),
{
    let wanted = policy_map(before).insert(put.domain@, put.policy());
    assert forall|d: Seq<char>|
        #![trigger policy_map(after).dom().contains(d)]
        #![trigger wanted.dom().contains(d)]
        {
            &&& policy_map(after).dom().contains(d) == wanted.dom().contains(d)
            &&& policy_map(after).dom().contains(d) ==> policy_map(after)[d] == wanted[d]
        } by {
        lemma_policy_put_for(before, after, put, d);
    }
    assert(policy_map(after) =~= wanted);
}

impl View for RateLimiter {
    type V = Map<Seq<char>, Policy>;

    closed spec fn view(&self) -> Map<Seq<char>, Policy> {
        policy_map(self.policies@)
    }
}

impl RateLimiter {
    /// A limiter that allows no host.
    pub fn new() -> (limiter: RateLimiter)
        ensures
            limiter@ == Map::<Seq<char>, Policy>::empty(),
    {
        let limiter = RateLimiter { policies: Vec::new() };
        assert(limiter@ =~= Map::<Seq<char>, Policy>::empty());
        limiter
    }

    /// Where the policy for `domain` stands; the number of policies where
    /// there is none.
    fn position(&self, domain: &str) -> (at: usize)
        ensures
            at == find(self.policies@, domain@, 0),
            at <= self.policies.len(),
    {
        let mut at: usize = 0;
        while at < self.policies.len() && !same_text(self.policies[at].domain.as_str(), domain)
            invariant
                at <= self.policies.len(),
                find(self.policies@, domain@, 0) == find(self.policies@, domain@, at as int),
            decreases self.policies.len() - at,
        {
            at += 1;
        }
        at
    }

    /// Allows `domain`, with `delay` between its requests, or with none. A
    /// host that was allowed before starts anew.
    pub fn allow_domain(&mut self, domain: &str, delay: Option<RequestDelay>)
        ensures
            final(self)@ == old(self)@.insert(domain@, Policy { delay, last_start: None }),
    {
        let at = self.position(domain);
        let policy = DomainPolicy { domain: String::from_str(domain), delay, last_start: None };
        let ghost before = self.policies@;
        if at < self.policies.len() {
            self.policies.set(at, policy);
        } else {
            self.policies.push(policy);
        }
        proof {
            lemma_policy_put(before, self.policies@, policy);
        }
    }

    /// Whether `domain` is allowed.
    pub fn is_allowed(&self, domain: &str) -> (b: bool)
        ensures
            b == self@.dom().contains(domain@),
    {
        self.position(domain) < self.policies.len()
    }

    /// Asks for the start time of a request to `domain` that arrives at
    /// `now`.
    ///
    /// An allowed host gets the time that [`next_start`] names, and the
    /// limiter remembers it as the host's last start. A host that is not
    /// allowed is refused, and so is a start time beyond `u64::MAX`; the
    /// limiter then stays as it was.
    pub fn acquire(&mut self, domain: &str, now: u64) -> (r: Result<u64, Refusal>)
        ensures
            match r {
                Ok(start) => {
                    &&& old(self)@.dom().contains(domain@)
                    &&& start >= now
                    &&& start == next_start(
                        old(self)@[domain@].delay,
                        old(self)@[domain@].last_start,
                        now as int,
                    )
                    &&& final(self)@ == old(self)@.insert(
                        domain@,
                        Policy { delay: old(self)@[domain@].delay, last_start: Some(start as int) },
                    )
                },
                Err(Refusal::NotAllowed) => {
                    &&& !old(self)@.dom().contains(domain@)
                    &&& final(self)@ == old(self)@
                },
                Err(Refusal::ClockOverflow) => {
                    &&& old(self)@.dom().contains(domain@)
                    &&& next_start(
                        old(self)@[domain@].delay,
                        old(self)@[domain@].last_start,
                        now as int,
                    ) > u64::MAX
                    &&& final(self)@ == old(self)@
                },
            },
    {
        let at = self.position(domain);
        if at >= self.policies.len() {
            return Err(Refusal::NotAllowed);
        }
        let delay = self.policies[at].delay;
        let start = match (delay, self.policies[at].last_start) {
            (Some(RequestDelay::Fixed(d)), Some(last)) => match last.checked_add(d) {
                Some(earliest) => if now >= earliest {
                    now
                } else {
                    earliest
                },
                None => return Err(Refusal::ClockOverflow),
            },
            _ => now,
        };
        let policy = DomainPolicy { domain: String::from_str(domain), delay, last_start: Some(start) };
        let ghost before = self.policies@;
        self.policies.set(at, policy);
        proof {
            lemma_policy_put(before, self.policies@, policy);
        }
        Ok(start)
    }
}

} // verus!

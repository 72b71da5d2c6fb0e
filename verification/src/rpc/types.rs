//! An upstream node and the statistics by which nodes are ranked.

use vstd::prelude::*;

verus! {

/// The health of a node. Times and rates are kept as whole numbers so that
/// ranking is exact: `latency` in microseconds, `throughput` in requests per
/// second.
#[derive(Debug, Clone, Copy, PartialEq, Eq, Structural)]
pub struct Status {
    /// The last operations on the node all failed.
    pub is_erroring: bool,
    /// Moving average of the time an operation takes.
    pub latency: u64,
    /// How much the node serves.
    pub throughput: u64,
    /// How many operations in a row failed, counted up to the threshold of
    /// the policy that recorded them.
    pub failures: u32,
}

impl Default for Status {
    fn default() -> (status: Status)
        ensures
            status == (Status { is_erroring: false, latency: 0, throughput: 0, failures: 0 }),
    {
        Status { is_erroring: false, latency: 0, throughput: 0, failures: 0 }
    }
}

/// How reports of single operations change a node's health.
#[derive(Debug, Clone, Copy, PartialEq, Eq, Structural)]
pub struct HealthPolicy {
    /// The weight of a new latency sample in the moving average, as the
    /// fraction `smoothing_num / smoothing_den`.
    pub smoothing_num: u32,
    pub smoothing_den: u32,
    /// After this many failures in a row the node counts as erroring.
    pub failure_threshold: u32,
}

impl HealthPolicy {
    /// The policy makes sense: the smoothing factor is a fraction between 0
    /// and 1, and it takes at least one failure to call a node erroring.
    pub open spec fn valid(&self) -> bool {
        &&& 0 < self.smoothing_den
        &&& self.smoothing_num <= self.smoothing_den
        &&& 0 < self.failure_threshold
    }

    /// Whether the policy makes sense.
    pub fn is_valid(&self) -> (valid: bool)
        ensures
            valid == self.valid(),
    {
        0 < self.smoothing_den && self.smoothing_num <= self.smoothing_den && 0
            < self.failure_threshold
    }
}

/// The moving average of latency after the sample `sample`.
pub open spec fn smoothed(policy: HealthPolicy, latency: u64, sample: u64) -> int {
    (latency * (policy.smoothing_den - policy.smoothing_num) + sample * policy.smoothing_num)
        / (policy.smoothing_den as int)
}

/// The count of failures in a row after one more operation.
pub open spec fn failures_after(policy: HealthPolicy, failures: u32, ok: bool) -> int {
    if ok {
        0
    } else if failures < policy.failure_threshold {
        failures + 1
    } else {
        policy.failure_threshold as int
    }
}

proof fn lemma_smoothed_bounded(policy: HealthPolicy, latency: u64, sample: u64)
    requires
        policy.valid(),
    ensures
        0 <= smoothed(policy, latency, sample) <= u64::MAX,
        0 <= latency * (policy.smoothing_den - policy.smoothing_num) + sample
            * policy.smoothing_num <= u64::MAX * policy.smoothing_den,
{
    let d = policy.smoothing_den as int;
    let n = policy.smoothing_num as int;
    let a = latency as int;
    let b = sample as int;
    assert(0 <= a * (d - n) <= u64::MAX * (d - n)) by (nonlinear_arith)
        requires
            0 <= a <= u64::MAX,
            0 <= d - n,
    ;
    assert(0 <= b * n <= u64::MAX * n) by (nonlinear_arith)
        requires
            0 <= b <= u64::MAX,
            0 <= n,
    ;
    assert(u64::MAX * (d - n) + u64::MAX * n == u64::MAX * d) by (nonlinear_arith);
    let total = a * (d - n) + b * n;
    assert(0 <= total / d <= u64::MAX) by (nonlinear_arith)
        requires
            0 <= total <= u64::MAX * d,
            0 < d,
    ;
}

impl Status {
    /// Takes in the report of one operation on the node: how long it took,
    /// and whether it succeeded. Latency follows as a moving average; the
    /// node is erroring exactly while the last `failure_threshold`
    /// operations all failed.
    pub fn record(&mut self, policy: &HealthPolicy, sample: u64, ok: bool)
        requires
            policy.valid(),
        ensures
            final(self).latency == smoothed(*policy, old(self).latency, sample),
            final(self).failures == failures_after(*policy, old(self).failures, ok),
            final(self).is_erroring == (final(self).failures >= policy.failure_threshold),
            final(self).throughput == old(self).throughput,
    {
        proof {
            lemma_smoothed_bounded(*policy, self.latency, sample);
        }
        let den: u128 = policy.smoothing_den as u128;
        let num: u128 = policy.smoothing_num as u128;
        let kept: u128 = den - num;
        assert(self.latency as u128 * kept <= u64::MAX * policy.smoothing_den) by (nonlinear_arith)
            requires
                0 <= kept <= policy.smoothing_den,
                policy.smoothing_den <= u32::MAX,
        ;
        assert(sample as u128 * num <= u64::MAX * policy.smoothing_den) by (nonlinear_arith)
            requires
                0 <= num <= policy.smoothing_den,
                policy.smoothing_den <= u32::MAX,
        ;
        let total: u128 = self.latency as u128 * kept + sample as u128 * num;
        self.latency = (total / den) as u64;
        if ok {
            self.failures = 0;
        } else if self.failures < policy.failure_threshold {
            self.failures = self.failures + 1;
        } else {
            self.failures = policy.failure_threshold;
        }
        self.is_erroring = self.failures >= policy.failure_threshold;
    }
}

/// An upstream node. Its position in the registry is its id everywhere.
#[derive(Debug, PartialEq, Eq)]
pub struct Rpc {
    /// The URL that requests over HTTP are forwarded to.
    pub url: String,
    /// The URL of the node's WebSocket endpoint, if it has one.
    pub ws_url: Option<String>,
    /// The rank of the node; higher is better.
    pub rank: i32,
    /// The node's health.
    pub status: Status,
}

impl Clone for Rpc {
    fn clone(&self) -> (copy: Self)
        ensures
            copy == *self,
    {
        let ws_url = match &self.ws_url {
            Some(url) => Some(url.clone()),
            None => None,
        };
        Rpc { url: self.url.clone(), ws_url, rank: self.rank, status: self.status }
    }
}

impl Rpc {
    /// A node at `url`, with rank 0, no WebSocket endpoint and a clean bill
    /// of health.
    pub fn new(url: String) -> (rpc: Self)
        ensures
            rpc.url == url,
            rpc.ws_url == None::<String>,
            rpc.rank == 0,
            rpc.status == (Status { is_erroring: false, latency: 0, throughput: 0, failures: 0 }),
    {
        Self { url, ws_url: None, rank: 0, status: Status::default() }
    }
}

/// Takes in the report of one operation on the node `node_id` of `list`:
/// that node's health changes as [`Status::record`] says, and nothing else
/// does. Tells whether there is such a node.
pub fn report_health(
    list: &mut Vec<Rpc>,
    node_id: usize,
    policy: &HealthPolicy,
    sample: u64,
    ok: bool,
) -> (known: bool)
    requires
        policy.valid(),
    ensures
        known == (node_id < old(list)@.len()),
        final(list)@.len() == old(list)@.len(),
        forall|i: int|
            0 <= i < old(list)@.len() && i != node_id ==> #[trigger] final(list)@[i] == old(
                list,
            )@[i],
        known ==> {
            let before = old(list)@[node_id as int];
            let after = final(list)@[node_id as int];
            &&& after.url == before.url
            &&& after.ws_url == before.ws_url
            &&& after.rank == before.rank
            &&& after.status.latency == smoothed(*policy, before.status.latency, sample)
            &&& after.status.failures == failures_after(*policy, before.status.failures, ok)
            &&& after.status.is_erroring == (after.status.failures >= policy.failure_threshold)
            &&& after.status.throughput == before.status.throughput
        },
{
    if node_id < list.len() {
        list[node_id].status.record(policy, sample, ok);
        true
    } else {
        false
    }
}

} // verus!

use vstd::prelude::*;
use vstd::arithmetic::div_mod::lemma_fundamental_div_mod_converse;

verus! {

/// What a logistics tick delivers.
#[derive(Debug, Clone, Copy, PartialEq, Eq, Structural)]
pub enum Delivery {
    /// The full production of every objective.
    Production,
    /// The smaller increment carried from the logistics hubs.
    FromHubs,
}

/// One step of a logistics tick. Each step is attempted whatever became of the others.
#[derive(Debug, Clone, Copy, PartialEq, Eq, Structural)]
pub enum LogisticsStep {
    SyncObjectivesFromWarehouses,
    DeliverProduction,
    DeliverFromHubs,
    SyncWarehousesFromObjectives,
}

/// The counter and the delivery after one logistics tick with cadence `k`, from counter `c`:
/// every `k`-th tick delivers the full production and restarts the count.
pub open spec fn cadence_step(c: nat, k: nat) -> (nat, Delivery) {
    if c + 1 >= k {
        (0, Delivery::Production)
    } else {
        ((c + 1) as nat, Delivery::FromHubs)
    }
}

/// The counter after `n` ticks from counter `c`, and how many of them delivered production.
pub open spec fn cadence_run(c: nat, k: nat, n: nat) -> (nat, nat)
    decreases n,
{
    if n == 0 {
        (c, 0)
    } else {
        let (c1, fulls) = cadence_run(c, k, (n - 1) as nat);
        let (c2, d) = cadence_step(c1, k);
        (c2, if d == Delivery::Production {
            fulls + 1
        } else {
            fulls
        })
    }
}

/// The steps of a logistics tick that makes delivery `d`: pull the warehouses into the
/// objectives, deliver, push the objectives back into the warehouses.
pub open spec fn plan_of(d: Delivery) -> Seq<LogisticsStep> {
    seq![
        LogisticsStep::SyncObjectivesFromWarehouses,
        match d {
            Delivery::Production => LogisticsStep::DeliverProduction,
            Delivery::FromHubs => LogisticsStep::DeliverFromHubs,
        },
        LogisticsStep::SyncWarehousesFromObjectives,
    ]
}

/// The steps of a logistics tick that makes delivery `d`.
pub fn logistics_plan(d: Delivery) -> (r: Vec<LogisticsStep>)
    ensures
        r@ == plan_of(d),
{
    let mid = match d {
        Delivery::Production => LogisticsStep::DeliverProduction,
        Delivery::FromHubs => LogisticsStep::DeliverFromHubs,
    };
    let r = vec![
        LogisticsStep::SyncObjectivesFromWarehouses,
        mid,
        LogisticsStep::SyncWarehousesFromObjectives,
    ];
    assert(r@ =~= plan_of(d));
    r
}

/// When the last logistics tick ran, and the ticks since the last production delivery.
#[derive(Debug, Clone, Copy, PartialEq, Eq, Structural)]
pub struct LogisticsClock {
    pub last_tick: i64,
    pub ticks_since_delivery: u32,
}

impl LogisticsClock {
    pub fn new(now: i64) -> (r: LogisticsClock)
        ensures
            r.last_tick == now,
            r.ticks_since_delivery == 0,
    {
        LogisticsClock { last_tick: now, ticks_since_delivery: 0 }
    }

    /// Runs the clock at `now`. When `interval_secs` have passed since the last logistics tick,
    /// this is one: it returns the delivery it makes, by the cadence of one production delivery
    /// every `ticks_per_delivery` ticks. Otherwise it returns `None` and changes nothing.
    pub fn tick(&mut self, now: i64, interval_secs: u64, ticks_per_delivery: u32) -> (r: Option<
        Delivery,
    >)
        ensures
            now - old(self).last_tick < interval_secs ==> r is None && *final(self) == *old(self),
            now - old(self).last_tick >= interval_secs ==> {
                let (c, d) = cadence_step(
                    old(self).ticks_since_delivery as nat,
                    ticks_per_delivery as nat,
                );
                &&& r == Some(d)
                &&& final(self).last_tick == now
                &&& final(self).ticks_since_delivery == c
            },
    {
        if (now as i128) - (self.last_tick as i128) >= interval_secs as i128 {
            self.last_tick = now;
            if self.ticks_since_delivery as u64 + 1 >= ticks_per_delivery as u64 {
                self.ticks_since_delivery = 0;
                Some(Delivery::Production)
            } else {
                self.ticks_since_delivery = self.ticks_since_delivery + 1;
                Some(Delivery::FromHubs)
            }
        } else {
            None
        }
    }
}

/// Cadence law: over `n` consecutive logistics ticks from a fresh counter with a cadence of one
/// production delivery every `k` ticks, exactly `n / k` ticks deliver production and the other
/// `n - n / k` deliver from the hubs; the counter then stands at `n % k`, so it never exceeds `k - 1`.
pub proof fn logistics_cadence(k: nat, n: nat)
    requires
        k >= 1,
    ensures
        cadence_run(0, k, n).1 == n / k,
        cadence_run(0, k, n).0 == n % k,
        cadence_run(0, k, n).0 <= k - 1,
    decreases n,
{
    if n == 0 {
        lemma_fundamental_div_mod_converse(0, k as int, 0, 0);
    } else {
        let m = (n - 1) as nat;
        logistics_cadence(k, m);
        let q = m / k;
        let r = m % k;
        vstd::arithmetic::div_mod::lemma_fundamental_div_mod(m as int, k as int);
        assert(m == q * k + r) by (nonlinear_arith)
            requires
                m == k * q + r,
        ;
        if r + 1 >= k {
            assert(n == (q + 1) * k + 0) by (nonlinear_arith)
                requires
                    m == q * k + r,
                    r + 1 == k,
                    n == m + 1,
            ;
            lemma_fundamental_div_mod_converse(n as int, k as int, (q + 1) as int, 0);
        } else {
            lemma_fundamental_div_mod_converse(n as int, k as int, q as int, (r + 1) as int);
        }
    }
}

/// How many of `d` deliver production.
pub open spec fn production_count(d: Seq<Delivery>) -> nat
    decreases d.len(),
{
    if d.len() == 0 {
        0
    } else {
        production_count(d.drop_last()) + if d.last() == Delivery::Production {
            1nat
        } else {
            0nat
        }
    }
}

/// Cadence law over successive due calls of `LogisticsClock::tick`: let `counters[i]` be the
/// counter before the `i`-th call, starting fresh, and `deliveries[i]` what that call delivered,
/// related as each call's contract relates them. Then exactly `n / k` of the `n` calls deliver
/// production, every call makes exactly one delivery (the others from the hubs), and the counter
/// ends at `n % k`, never above `k - 1`.
pub proof fn cadence_over_calls(k: nat, counters: Seq<nat>, deliveries: Seq<Delivery>)
    requires
        k >= 1,
        counters.len() == deliveries.len() + 1,
        counters[0] == 0,
        forall|i: int|
            0 <= i < deliveries.len() ==> (counters[i + 1], deliveries[i]) == cadence_step(
                counters[i],
                k,
            ),
    ensures
        production_count(deliveries) == deliveries.len() / k,
        counters.last() == deliveries.len() % k,
        forall|i: int| 0 <= i < counters.len() ==> counters[i] <= k - 1,
{
    assert forall|i: int| 0 <= i <= deliveries.len() implies cadence_run(0, k, i as nat) == (
        counters[i],
        production_count(deliveries.take(i)),
    ) by {
        lemma_calls_match_run(k, counters, deliveries, i);
    }
    assert(deliveries.take(deliveries.len() as int) =~= deliveries);
    logistics_cadence(k, deliveries.len());
    assert forall|i: int| 0 <= i < counters.len() implies counters[i] <= k - 1 by {
        lemma_calls_match_run(k, counters, deliveries, i);
        logistics_cadence(k, i as nat);
    }
}

proof fn lemma_calls_match_run(k: nat, counters: Seq<nat>, deliveries: Seq<Delivery>, i: int)
    requires
        counters.len() == deliveries.len() + 1,
        counters[0] == 0,
        forall|j: int|
            0 <= j < deliveries.len() ==> (counters[j + 1], deliveries[j]) == cadence_step(
                counters[j],
                k,
            ),
        0 <= i <= deliveries.len(),
    ensures
        cadence_run(0, k, i as nat) == (counters[i], production_count(deliveries.take(i))),
    decreases i,
{
    if i > 0 {
        lemma_calls_match_run(k, counters, deliveries, i - 1);
        assert(deliveries.take(i).drop_last() =~= deliveries.take(i - 1));
        assert(deliveries.take(i).last() == deliveries[i - 1]);
    } else {
        assert(deliveries.take(0) =~= Seq::<Delivery>::empty());
    }
}

} // verus!

use vstd::prelude::*;

verus! {

/// One life pool of a player: when it was last refilled and how many lives are left in it.
#[derive(Debug, Clone, Copy, PartialEq, Eq, Structural)]
pub struct LifeEntry {
    pub last_reset: i64,
    pub remaining: u8,
}

/// The configured pool of a life type: its size and the seconds after which it refills.
#[derive(Debug, Clone, Copy, PartialEq, Eq, Structural)]
pub struct LifeRule {
    pub max: u8,
    pub reset_after: u64,
}

/// Whether the reset window of a pool refilled at `last_reset` has elapsed at `now`.
pub open spec fn window_elapsed(last_reset: i64, rule: LifeRule, now: i64) -> bool {
    now - last_reset >= rule.reset_after
}

/// The pool as it stands at `now` once a lazy reset has been applied: a pool never used, or one
/// whose window has elapsed, is full and counts from `now`.
pub open spec fn refreshed(e: Option<LifeEntry>, rule: LifeRule, now: i64) -> LifeEntry {
    match e {
        Some(x) => if window_elapsed(x.last_reset, rule, now) {
            LifeEntry { last_reset: now, remaining: rule.max }
        } else {
            x
        },
        None => LifeEntry { last_reset: now, remaining: rule.max },
    }
}

/// Lives available at `now`.
pub open spec fn lives_at(e: Option<LifeEntry>, rule: LifeRule, now: i64) -> u8 {
    refreshed(e, rule, now).remaining
}

/// The pool after a life is consumed at `now`, or `None` when none is left.
pub open spec fn taken(e: Option<LifeEntry>, rule: LifeRule, now: i64) -> Option<LifeEntry> {
    let r = refreshed(e, rule, now);
    if r.remaining == 0 {
        None
    } else {
        Some(LifeEntry { last_reset: r.last_reset, remaining: (r.remaining - 1) as u8 })
    }
}

/// The pool after a life is credited back at `now`; it never grows past the configured size.
pub open spec fn returned(e: Option<LifeEntry>, rule: LifeRule, now: i64) -> LifeEntry {
    let r = refreshed(e, rule, now);
    LifeEntry {
        last_reset: r.last_reset,
        remaining: if r.remaining >= rule.max {
            rule.max
        } else {
            (r.remaining + 1) as u8
        },
    }
}

/// Whether the pool's window has run out at `now`, in exact integer arithmetic.
pub fn reset_due(last_reset: i64, rule: LifeRule, now: i64) -> (r: bool)
    ensures
        r == window_elapsed(last_reset, rule, now),
{
    (now as i128) - (last_reset as i128) >= rule.reset_after as i128
}

/// Applies the lazy reset.
pub fn refresh(e: Option<LifeEntry>, rule: LifeRule, now: i64) -> (r: LifeEntry)
    ensures
        r == refreshed(e, rule, now),
{
    match e {
        Some(x) => if reset_due(x.last_reset, rule, now) {
            LifeEntry { last_reset: now, remaining: rule.max }
        } else {
            x
        },
        None => LifeEntry { last_reset: now, remaining: rule.max },
    }
}

/// Lives available at `now`, computed on read.
pub fn current_lives(e: Option<LifeEntry>, rule: LifeRule, now: i64) -> (r: u8)
    ensures
        r == lives_at(e, rule, now),
{
    refresh(e, rule, now).remaining
}

/// Consumes one life at `now`.
pub fn take_life(e: Option<LifeEntry>, rule: LifeRule, now: i64) -> (r: Option<LifeEntry>)
    ensures
        r == taken(e, rule, now),
{
    let x = refresh(e, rule, now);
    if x.remaining == 0 {
        None
    } else {
        Some(LifeEntry { last_reset: x.last_reset, remaining: x.remaining - 1 })
    }
}

/// Credits one life back at `now`.
pub fn return_life(e: Option<LifeEntry>, rule: LifeRule, now: i64) -> (r: LifeEntry)
    ensures
        r == returned(e, rule, now),
{
    let x = refresh(e, rule, now);
    LifeEntry {
        last_reset: x.last_reset,
        remaining: if x.remaining >= rule.max {
            rule.max
        } else {
            x.remaining + 1
        },
    }
}

/// Seconds from `now` until the pool refills, negative once it is due; `None` for a pool never
/// used, which is full.
pub fn seconds_until_reset(e: Option<LifeEntry>, rule: LifeRule, now: i64) -> (r: Option<i128>)
    ensures
        match e {
            Some(x) => r == Some((x.last_reset + rule.reset_after - now) as i128),
            None => r is None,
        },
{
    match e {
        Some(x) => Some(x.last_reset as i128 + rule.reset_after as i128 - now as i128),
        None => None,
    }
}

/// A number of seconds as hours, minutes and seconds.
pub fn hms(secs: u64) -> (r: (u64, u64, u64))
    ensures
        r.0 == secs / 3600,
        r.1 == (secs % 3600) / 60,
        r.2 == secs % 60,
        r.1 < 60 && r.2 < 60,
        r.0 * 3600 + r.1 * 60 + r.2 == secs,
{
    let h = secs / 3600;
    let rest = secs % 3600;
    let m = rest / 60;
    let sec = rest % 60;
    assert(secs % 60 == rest % 60 && h * 3600 + m * 60 + sec == secs) by (nonlinear_arith)
        requires
            h == secs / 3600,
            rest == secs % 3600,
            m == rest / 60,
            sec == rest % 60,
    {
        vstd::arithmetic::div_mod::lemma_fundamental_div_mod(secs as int, 3600);
        vstd::arithmetic::div_mod::lemma_fundamental_div_mod(rest as int, 60);
        vstd::arithmetic::div_mod::lemma_mod_mod(secs as int, 60, 60);
    }
    (h, m, sec)
}

/// Reset law: for a pool last refilled at `t0`, a query at `t` gives the full count exactly when
/// `t - t0` has reached the window, and the pool's own count before that.
pub proof fn life_reset_law(e: LifeEntry, rule: LifeRule, t: i64)
    requires
        e.remaining <= rule.max,
    ensures
        t - e.last_reset >= rule.reset_after ==> lives_at(Some(e), rule, t) == rule.max,
        t - e.last_reset < rule.reset_after ==> lives_at(Some(e), rule, t) == e.remaining,
        lives_at(Some(e), rule, t) == rule.max <==> (t - e.last_reset >= rule.reset_after
            || e.remaining == rule.max),
{
}

} // verus!

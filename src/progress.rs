use vstd::prelude::*;

verus! {

/// How the trial count so far compares with the expected count.
#[derive(Clone, Copy, Debug, PartialEq, Eq, Structural)]
pub enum Luck {
    /// Under half the expected trials used.
    FarAhead,
    /// Under the expected trials.
    Ahead,
    /// Under twice the expected trials.
    OnTrack,
    /// Twice the expected trials or more, or nothing tried yet.
    Behind,
}

/// Estimated time to reach the expected trial count.
#[derive(Clone, Copy, Debug, PartialEq, Eq, Structural)]
pub enum Eta {
    Seconds(u64),
    /// The expected trial count is already reached.
    Imminent,
    /// No throughput measured yet.
    Unknown,
}

/// One sample of the progress of a search.
#[derive(Clone, Copy, Debug, PartialEq, Eq, Structural)]
pub struct ProgressSample {
    /// Trials per second over the last interval.
    pub speed: u64,
    /// Completion against the expected trials, in tenths of a percent, at most 1000.
    pub permille: u64,
    pub luck: Luck,
    pub eta: Eta,
}

pub open spec fn speed_of(cur: nat, last: nat, interval_ms: nat) -> nat {
    let s = (cur - last) * 1000 / (interval_ms as int);
    if s <= u64::MAX {
        s as nat
    } else {
        u64::MAX as nat
    }
}

pub open spec fn permille_of(cur: nat, expected: nat) -> nat {
    if cur >= expected {
        1000
    } else {
        cur * 1000 / expected
    }
}

pub open spec fn luck_of(cur: nat, expected: nat) -> Luck {
    if cur == 0 {
        Luck::Behind
    } else if expected > 2 * cur {
        Luck::FarAhead
    } else if expected > cur {
        Luck::Ahead
    } else if 2 * expected > cur {
        Luck::OnTrack
    } else {
        Luck::Behind
    }
}

pub open spec fn eta_of(cur: nat, expected: nat, speed: nat) -> Eta {
    if speed > 0 && cur < expected {
        Eta::Seconds(((expected - cur) / (speed as int)) as u64)
    } else if cur >= expected {
        Eta::Imminent
    } else {
        Eta::Unknown
    }
}

/// Estimates throughput, completion, luck and time left from the trial count
/// `cur` now, `last` one interval of `interval_ms` milliseconds ago, and the
/// expected trial count of the run.
pub fn sample(cur: u64, last: u64, interval_ms: u64, expected: u64) -> (r: ProgressSample)
    requires
        last <= cur,
        interval_ms > 0,
        expected > 0,
    ensures
        r.speed == speed_of(cur as nat, last as nat, interval_ms as nat),
        r.permille == permille_of(cur as nat, expected as nat),
        r.luck == luck_of(cur as nat, expected as nat),
        r.eta == eta_of(cur as nat, expected as nat, r.speed as nat),
{
    let delta = (cur - last) as u128;
    let s = delta * 1000 / (interval_ms as u128);
    let speed: u64 = if s <= u64::MAX as u128 {
        s as u64
    } else {
        u64::MAX
    };
    let permille: u64 = if cur >= expected {
        1000
    } else {
        let p = (cur as u128) * 1000 / (expected as u128);
        proof {
            let (c, e) = (cur as int, expected as int);
            assert(c * 1000 / e <= 1000) by (nonlinear_arith)
                requires
                    0 <= c < e,
            ;
        }
        p as u64
    };
    let c = cur as u128;
    let e = expected as u128;
    let luck = if cur == 0 {
        Luck::Behind
    } else if e > 2 * c {
        Luck::FarAhead
    } else if e > c {
        Luck::Ahead
    } else if 2 * e > c {
        Luck::OnTrack
    } else {
        Luck::Behind
    };
    let eta = if speed > 0 && cur < expected {
        Eta::Seconds((expected - cur) / speed)
    } else if cur >= expected {
        Eta::Imminent
    } else {
        Eta::Unknown
    };
    ProgressSample { speed, permille, luck, eta }
}

/// The label shown for a luck tier.
pub fn luck_name(l: Luck) -> (r: &'static str)
    ensures
        r@ == match l {
            Luck::FarAhead => "欧皇"@,
            Luck::Ahead => "好运"@,
            Luck::OnTrack => "正常"@,
            Luck::Behind => "非酋"@,
        },
{
    match l {
        Luck::FarAhead => "欧皇",
        Luck::Ahead => "好运",
        Luck::OnTrack => "正常",
        Luck::Behind => "非酋",
    }
}

} // verus!

use vstd::prelude::*;
use vstd::string::*;

use crate::error::LogManagerError;

verus! {

/// How often a new log file is started.
#[derive(Debug, Clone, Copy, PartialEq, Eq, Structural)]
pub enum RotationPolicy {
    Minutely,
    Hourly,
    Daily,
    Never,
}

/// Length of a rotation window in seconds; zero for a policy that never rotates.
pub open spec fn window_secs(p: RotationPolicy) -> nat {
    match p {
        RotationPolicy::Minutely => 60,
        RotationPolicy::Hourly => 3600,
        RotationPolicy::Daily => 86400,
        RotationPolicy::Never => 0,
    }
}

/// Index of the window holding second `t` (since the Unix epoch, UTC).
pub open spec fn window_index(p: RotationPolicy, t: nat) -> nat {
    if p == RotationPolicy::Never {
        0
    } else {
        t / window_secs(p)
    }
}

/// The bucket of second `t`: the first second of its window, or 0 for a
/// policy that never rotates.
pub open spec fn bucket_of(p: RotationPolicy, t: nat) -> nat {
    window_index(p, t) * window_secs(p)
}

impl RotationPolicy {
    pub fn window_secs(&self) -> (r: u64)
        ensures
            r as nat == window_secs(*self),
    {
        match self {
            RotationPolicy::Minutely => 60,
            RotationPolicy::Hourly => 3600,
            RotationPolicy::Daily => 86400,
            RotationPolicy::Never => 0,
        }
    }
}

/// The bucket that a record written at `timestamp` (seconds since the Unix
/// epoch, UTC) belongs to.
pub fn bucket_for(policy: RotationPolicy, timestamp: u64) -> (b: u64)
    ensures
        b as nat == bucket_of(policy, timestamp as nat),
        b <= timestamp,
{
    let w = policy.window_secs();
    if w == 0 {
        0
    } else {
        let r = timestamp % w;
        assert(timestamp as nat / w as nat * w as nat == timestamp - r) by {
            vstd::arithmetic::div_mod::lemma_fundamental_div_mod(timestamp as int, w as int);
        }
        timestamp - r
    }
}

/// A write at `timestamp` must open a new file: none is open yet, or the
/// timestamp lies in a later bucket than the open one.
pub fn crosses_boundary(policy: RotationPolicy, current: Option<u64>, timestamp: u64) -> (r: bool)
    ensures
        r == match current {
            None => true,
            Some(c) => bucket_of(policy, timestamp as nat) > c,
        },
{
    match current {
        None => true,
        Some(c) => bucket_for(policy, timestamp) > c,
    }
}

/// Records in one window share a bucket, records in later windows get
/// strictly larger buckets, and buckets never go back in time.
pub proof fn lemma_bucket_windows(p: RotationPolicy, t1: nat, t2: nat)
    requires
        t1 <= t2,
    ensures
        window_index(p, t1) == window_index(p, t2) ==> bucket_of(p, t1) == bucket_of(p, t2),
        window_index(p, t1) < window_index(p, t2) ==> bucket_of(p, t1) < bucket_of(p, t2),
        window_index(p, t1) <= window_index(p, t2),
        bucket_of(p, t1) <= bucket_of(p, t2),
        bucket_of(p, t1) <= t1,
        bucket_of(p, t2) <= t2,
{
    if p != RotationPolicy::Never {
        let w = window_secs(p) as int;
        vstd::arithmetic::div_mod::lemma_fundamental_div_mod(t1 as int, w);
        vstd::arithmetic::div_mod::lemma_fundamental_div_mod(t2 as int, w);
        vstd::arithmetic::div_mod::lemma_div_is_ordered(t1 as int, t2 as int, w);
        let a = window_index(p, t1) as int;
        let b = window_index(p, t2) as int;
        assert(a <= b ==> a * w <= b * w) by (nonlinear_arith)
            requires
                w > 0,
        ;
        assert(a < b ==> a * w < b * w) by (nonlinear_arith)
            requires
                w > 0,
        ;
    }
}

/// The characters of `s` are those of `t`.
fn text_is(s: &str, t: &str) -> (r: bool)
    ensures
        r == (s@ == t@),
{
    let n = s.unicode_len();
    if n != t.unicode_len() {
        return false;
    }
    let mut i: usize = 0;
    while i < n
        invariant
            n == s@.len(),
            n == t@.len(),
            i <= n,
            forall|j: int| 0 <= j < i ==> s@[j] == t@[j],
        decreases n - i,
    {
        if s.get_char(i) != t.get_char(i) {
            return false;
        }
        i = i + 1;
    }
    assert(s@ =~= t@);
    true
}

/// The rotation policy named by a text, in upper case.
pub open spec fn rotation_from_text(s: Seq<char>) -> Option<RotationPolicy> {
    if s == "MINUTELY"@ {
        Some(RotationPolicy::Minutely)
    } else if s == "HOURLY"@ {
        Some(RotationPolicy::Hourly)
    } else if s == "DAILY"@ {
        Some(RotationPolicy::Daily)
    } else if s == "NEVER"@ {
        Some(RotationPolicy::Never)
    } else {
        None
    }
}

/// Reads a rotation policy from its name.
pub fn get_rotation_file(rotation_file: &str) -> (r: Result<RotationPolicy, LogManagerError>)
    ensures
        r == match rotation_from_text(rotation_file@) {
            Some(p) => Ok(p),
            None => Err(LogManagerError::InvalidRotationFileFormat),
        },
{
    if text_is(rotation_file, "MINUTELY") {
        Ok(RotationPolicy::Minutely)
    } else if text_is(rotation_file, "HOURLY") {
        Ok(RotationPolicy::Hourly)
    } else if text_is(rotation_file, "DAILY") {
        Ok(RotationPolicy::Daily)
    } else if text_is(rotation_file, "NEVER") {
        Ok(RotationPolicy::Never)
    } else {
        Err(LogManagerError::InvalidRotationFileFormat)
    }
}

} // verus!

//! Counting sign-in attempts per client address.
//!
//! Each address may try `RATE_LIMIT` times within a window of
//! `RATE_WINDOW_SECS` seconds. The count starts anew once a window is over.

use crate::cfg::IpAddress;
use std::collections::HashMap;
use std::time::Duration;
use std::time::Instant;
use vstd::prelude::*;

verus! {

broadcast use vstd::std_specs::hash::group_hash_axioms;

/// Attempts allowed within one window.
pub const RATE_LIMIT: u8 = 10;

/// The length of a window in seconds: a day.
pub const RATE_WINDOW_SECS: u64 = 86400;

#[verifier::external_type_specification]
#[verifier::external_body]
pub struct ExInstant(Instant);

/// `Instant::now`: the present moment, of which nothing is said.
#[verifier::external_body]
fn now() -> (t: Instant) {
    Instant::now()
}

/// `Instant::elapsed`: how long ago `start` was. That is for the clock to
/// say, so nothing is said here.
#[verifier::external_body]
fn elapsed(start: &Instant) -> (d: Duration) {
    start.elapsed()
}

/// `Duration::as_secs`: the whole seconds of a duration, which is only
/// carried through here, so nothing is said of them.
#[verifier::external_body]
fn whole_seconds(d: &Duration) -> (secs: u64) {
    d.as_secs()
}

/// The count after one more attempt, `elapsed` seconds into the window:
/// one more than before, or one if the window is over. It stops at 255.
pub open spec fn count_after(count: u8, elapsed: u64) -> u8 {
    if elapsed >= RATE_WINDOW_SECS {
        1
    } else if count == u8::MAX {
        u8::MAX
    } else {
        (count + 1) as u8
    }
}

/// The count after `n` attempts within one window.
pub open spec fn count_after_attempts(count: u8, n: nat) -> u8
    decreases n,
{
    if n == 0 {
        count
    } else {
        count_after(count_after_attempts(count, (n - 1) as nat), 0)
    }
}

/// Within one window, starting from nothing, the first `RATE_LIMIT`
/// attempts are within the limit and every later one is not.
pub proof fn lemma_limit_holds(n: nat)
    requires
        n >= 1,
    ensures
        count_after_attempts(0, n) == if n < 255 {
            n as u8
        } else {
            255u8
        },
        count_after_attempts(0, n) <= RATE_LIMIT <==> n <= RATE_LIMIT,
    decreases n,
{
    if n > 1 {
        lemma_limit_holds((n - 1) as nat);
    } else {
        assert(count_after_attempts(0, 0) == 0);
    }
}

/// The attempts of one client address within the current window.
pub struct RateLimit {
    count: u8,
    window_start: Instant,
}

impl View for RateLimit {
    type V = u8;

    closed spec fn view(&self) -> u8 {
        self.count
    }
}

impl RateLimit {
    /// The moment the current window began.
    pub closed spec fn started(&self) -> Instant {
        self.window_start
    }

    /// The attempts counted in the current window.
    pub fn count(&self) -> (n: u8)
        ensures
            n == self@,
    {
        self.count
    }

    /// The moment the current window began.
    pub fn window_start(&self) -> (t: Instant)
        ensures
            t == self.started(),
    {
        self.window_start
    }

    /// Counts one attempt made at the moment `present`, `elapsed` seconds
    /// after the window began, and says whether it is within the limit. A
    /// window that is over gives way to one that begins at `present`;
    /// while it runs, its start stays where it is.
    pub fn allow_after(&mut self, elapsed: u64, present: Instant) -> (allowed: bool)
        ensures
            final(self)@ == count_after(old(self)@, elapsed),
            allowed == (final(self)@ <= RATE_LIMIT),
            final(self).started() == if elapsed >= RATE_WINDOW_SECS {
                present
            } else {
                old(self).started()
            },
    {
        if elapsed >= RATE_WINDOW_SECS {
            self.count = 0;
            self.window_start = present;
        }
        self.count = if self.count == u8::MAX {
            u8::MAX
        } else {
            self.count + 1
        };
        self.count <= RATE_LIMIT
    }

    /// Counts one attempt made now and says whether it is within the
    /// limit. The clock decides whether the window is over: either it
    /// runs on, with its start where it was and one attempt more, or a
    /// new one begins with this attempt as its first.
    pub fn allow(&mut self) -> (allowed: bool)
        ensures
            ({
                ||| final(self)@ == count_after(old(self)@, 0) && final(self).started() == old(self).started()
                ||| final(self)@ == count_after(old(self)@, RATE_WINDOW_SECS)
            }),
            allowed == (final(self)@ <= RATE_LIMIT),
    {
        let since = elapsed(&self.window_start);
        let secs = whole_seconds(&since);
        let present = if secs >= RATE_WINDOW_SECS {
            now()
        } else {
            self.window_start
        };
        self.allow_after(secs, present)
    }
}

impl Default for RateLimit {
    /// No attempts, in a window that begins now.
    fn default() -> (r: Self)
        ensures
            r@ == 0,
    {
        RateLimit { count: 0, window_start: now() }
    }
}

/// The number an IPv4 address is filed under.
pub open spec fn v4_key(a: u8, b: u8, c: u8, d: u8) -> u32 {
    (a * 16777216 + b * 65536 + c * 256 + d) as u32
}

/// The attempts of every client address seen so far.
pub struct RateLimits {
    v4: HashMap<u32, RateLimit>,
    v6: HashMap<u128, RateLimit>,
}

impl RateLimits {
    /// The attempts counted for `ip` in its current window; none for an
    /// address not seen yet.
    pub closed spec fn count_of(&self, ip: IpAddress) -> u8 {
        match ip {
            IpAddress::V4(a, b, c, d) => filed(self.v4@, v4_key(a, b, c, d)),
            IpAddress::V6(n) => filed(self.v6@, n),
        }
    }

    /// The moment the current window of `ip` began; none for an address
    /// not seen yet.
    pub closed spec fn started_of(&self, ip: IpAddress) -> Option<Instant> {
        match ip {
            IpAddress::V4(a, b, c, d) => window(self.v4@, v4_key(a, b, c, d)),
            IpAddress::V6(n) => window(self.v6@, n),
        }
    }

    /// No address seen.
    pub fn new() -> (r: Self)
        ensures
            forall|ip: IpAddress| r.count_of(ip) == 0,
            forall|ip: IpAddress| r.started_of(ip) is None,
    {
        RateLimits { v4: HashMap::new(), v6: HashMap::new() }
    }

    /// Counts one attempt from `ip`, made now, and says whether it is
    /// within the limit. The window of `ip` runs on from where it began,
    /// or a new one begins with this attempt. The counts and windows of
    /// other addresses stay as they are.
    pub fn allow(&mut self, ip: IpAddress) -> (allowed: bool)
        ensures
            ({
                ||| runs_on(
                    old(self).count_of(ip),
                    old(self).started_of(ip),
                    final(self).count_of(ip),
                    final(self).started_of(ip),
                )
                ||| final(self).count_of(ip) == count_after(
                    old(self).count_of(ip),
                    RATE_WINDOW_SECS,
                )
            }),
            final(self).started_of(ip) is Some,
            allowed == (final(self).count_of(ip) <= RATE_LIMIT),
            forall|other: IpAddress|
                other != ip ==> final(self).count_of(other) == old(self).count_of(other)
                    && final(self).started_of(other) == old(self).started_of(other),
    {
        match ip {
            IpAddress::V4(a, b, c, d) => {
                let key: u32 = (a as u32) * 16777216 + (b as u32) * 65536 + (c as u32) * 256 + (
                d as u32);
                proof {
                    lemma_v4_keys_differ(ip);
                }
                allow_in(&mut self.v4, key)
            },
            IpAddress::V6(n) => allow_in(&mut self.v6, n),
        }
    }
}

/// The count filed under `key`; none where nothing is filed.
pub open spec fn filed<K>(limits: Map<K, RateLimit>, key: K) -> u8 {
    if limits.contains_key(key) {
        limits[key]@
    } else {
        0
    }
}

/// The window of an address runs on: one attempt more is counted and, if
/// the address was seen before, its window began when it began before.
pub open spec fn runs_on(
    count: u8,
    started: Option<Instant>,
    new_count: u8,
    new_started: Option<Instant>,
) -> bool {
    &&& new_count == count_after(count, 0)
    &&& started is Some ==> new_started == started
}

/// The moment the window filed under `key` began; none where nothing is
/// filed.
pub open spec fn window<K>(limits: Map<K, RateLimit>, key: K) -> Option<Instant> {
    if limits.contains_key(key) {
        Some(limits[key].started())
    } else {
        None
    }
}

/// The four bytes of an IPv4 address can be read back from the number it
/// is filed under.
proof fn lemma_v4_key_parts(a: u8, b: u8, c: u8, d: u8)
    ensures
        v4_key(a, b, c, d) == a * 16777216 + b * 65536 + c * 256 + d,
        v4_key(a, b, c, d) / 16777216 == a,
        v4_key(a, b, c, d) / 65536 % 256 == b,
        v4_key(a, b, c, d) / 256 % 256 == c,
        v4_key(a, b, c, d) % 256 == d,
{
    let k: int = a * 16777216 + b * 65536 + c * 256 + d;
    assert(0 <= k < 0x1_0000_0000);
    assert(k / 16777216 == a);
    assert(k / 65536 == a * 256 + b);
    assert(k / 256 == a * 65536 + b * 256 + c);
}

/// Different IPv4 addresses are filed under different numbers.
proof fn lemma_v4_keys_differ(ip: IpAddress)
    requires
        ip is V4,
    ensures
        forall|a: u8, b: u8, c: u8, d: u8|
            IpAddress::V4(a, b, c, d) != ip ==> #[trigger] v4_key(a, b, c, d) != v4_key(
                ip->V4_0,
                ip->V4_1,
                ip->V4_2,
                ip->V4_3,
            ),
{
    lemma_v4_key_parts(ip->V4_0, ip->V4_1, ip->V4_2, ip->V4_3);
    assert forall|a: u8, b: u8, c: u8, d: u8| IpAddress::V4(a, b, c, d) != ip implies #[trigger] v4_key(
        a,
        b,
        c,
        d,
    ) != v4_key(ip->V4_0, ip->V4_1, ip->V4_2, ip->V4_3) by {
        lemma_v4_key_parts(a, b, c, d);
    }
}

/// Counts one attempt under `key` in a map of limits.
fn allow_in<K: std::hash::Hash + Eq + Copy>(limits: &mut HashMap<K, RateLimit>, key: K) -> (allowed:
    bool)
    requires
        vstd::std_specs::hash::obeys_key_model::<K>(),
    ensures
        ({
            ||| runs_on(
                filed(old(limits)@, key),
                window(old(limits)@, key),
                filed(final(limits)@, key),
                window(final(limits)@, key),
            )
            ||| filed(final(limits)@, key) == count_after(
                filed(old(limits)@, key),
                RATE_WINDOW_SECS,
            )
        }),
        window(final(limits)@, key) is Some,
        allowed == (filed(final(limits)@, key) <= RATE_LIMIT),
        forall|other: K|
            other != key ==> filed(final(limits)@, other) == filed(old(limits)@, other) && window(
                final(limits)@,
                other,
            ) == window(old(limits)@, other),
{
    let mut limit = match limits.remove(&key) {
        Some(limit) => limit,
        None => RateLimit::default(),
    };
    let allowed = limit.allow();
    limits.insert(key, limit);
    allowed
}

} // verus!

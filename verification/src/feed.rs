//! Host-collector feed schema: privileged host facts the kiosk cannot see from
//! its own namespace (host link rates, pool aggregates, disk temperatures).
//!
//! The collector writes `{"updated_at": <unix>, "net": [...], "pools": [...]}`.
//! Read rule (never an error screen): a missing file, bad JSON, or a feed older
//! than [`STALE_AFTER_SECS`] reads as absent (pending rows). The rows are
//! carried as they were decoded; the rule looks only at `updated_at`.

use vstd::prelude::*;

verus! {

/// Maximum feed age in seconds before it reads as absent (pending rows).
pub const STALE_AFTER_SECS: u64 = 120;

/// The collector file: its Unix timestamp and the interface (`N`) and pool
/// (`P`) rows it carries. Field defaults keep old writers forward-readable.
#[derive(Clone, Debug, PartialEq)]
pub struct HostFeedFile<N, P> {
    pub updated_at: u64,
    pub net: Vec<N>,
    pub pools: Vec<P>,
}

/// Age in seconds of a feed stamped `updated_at`, seen at `now_unix`; 0 for a
/// stamp from the future.
pub open spec fn feed_age(updated_at: u64, now_unix: u64) -> int {
    if now_unix >= updated_at {
        now_unix - updated_at
    } else {
        0
    }
}

/// A feed stamped `updated_at` is stale at `now_unix` when it is older than
/// [`STALE_AFTER_SECS`]. A clock reading of 0 means the clock is unavailable:
/// then only a feed stamped 0 reads as fresh.
pub open spec fn stale_at(updated_at: u64, now_unix: u64) -> bool {
    if now_unix == 0 {
        updated_at != 0
    } else {
        feed_age(updated_at, now_unix) > STALE_AFTER_SECS
    }
}

/// The read rule applied to a decoded feed: absent stays absent, a stale feed
/// reads as absent, a fresh feed is kept as it is.
pub open spec fn read_rule<N, P>(decoded: Option<HostFeedFile<N, P>>, now_unix: u64) -> Option<
    HostFeedFile<N, P>,
> {
    match decoded {
        Some(feed) => if stale_at(feed.updated_at, now_unix) {
            None
        } else {
            Some(feed)
        },
        None => None,
    }
}

impl<N, P> HostFeedFile<N, P> {
    /// Age in seconds relative to `now_unix`; saturates at 0 for future stamps.
    pub fn age_secs(&self, now_unix: u64) -> (age: u64)
        ensures
            age == feed_age(self.updated_at, now_unix),
            now_unix >= self.updated_at ==> age == now_unix - self.updated_at,
            now_unix < self.updated_at ==> age == 0,
    {
        now_unix.saturating_sub(self.updated_at)
    }

    /// True when the feed is older than [`STALE_AFTER_SECS`]; a stamp from the
    /// future (clock skew) reads as fresh, never as an error. With no clock
    /// (`now_unix == 0`) the feed reads as fresh only when its stamp is also 0.
    pub fn is_stale(&self, now_unix: u64) -> (stale: bool)
        ensures
            stale == stale_at(self.updated_at, now_unix),
            0 < now_unix <= self.updated_at ==> !stale,
            now_unix == 0 ==> (stale <==> self.updated_at != 0),
            now_unix != 0 ==> (stale <==> now_unix - self.updated_at > STALE_AFTER_SECS),
    {
        if now_unix == 0 {
            self.updated_at != 0
        } else {
            self.age_secs(now_unix) > STALE_AFTER_SECS
        }
    }
}

/// The production read rule on a decoded feed: `None` (bad or missing input)
/// stays `None`, a stale feed becomes `None`, a fresh one comes back unchanged.
pub fn apply_read_rule<N, P>(decoded: Option<HostFeedFile<N, P>>, now_unix: u64) -> (kept: Option<
    HostFeedFile<N, P>,
>)
    ensures
        kept == read_rule(decoded, now_unix),
        decoded is None ==> kept is None,
        decoded matches Some(feed) ==> kept == (if (now_unix != 0 && now_unix - feed.updated_at
            <= STALE_AFTER_SECS) || (now_unix == 0 && feed.updated_at == 0) {
            Some(feed)
        } else {
            None
        }),
{
    match decoded {
        Some(feed) => {
            if feed.is_stale(now_unix) {
                None
            } else {
                Some(feed)
            }
        },
        None => None,
    }
}

/// Law: while the clock is available, staleness only grows with time; a feed
/// stale at one instant is stale at every later one.
pub proof fn lemma_staleness_is_monotone(updated_at: u64, earlier: u64, later: u64)
    requires
        0 < earlier <= later,
        stale_at(updated_at, earlier),
    ensures
        stale_at(updated_at, later),
{
}

/// Law: with the clock available, the read rule keeps a feed exactly when it
/// is decoded and no older than [`STALE_AFTER_SECS`]; with no clock it keeps
/// exactly a feed stamped 0; it never changes the feed it keeps.
pub proof fn lemma_read_rule_keeps_fresh_feeds<N, P>(feed: HostFeedFile<N, P>, now_unix: u64)
    ensures
        now_unix != 0 ==> read_rule(Some(feed), now_unix) == (if feed_age(
            feed.updated_at,
            now_unix,
        ) <= STALE_AFTER_SECS {
            Some(feed)
        } else {
            None
        }),
        now_unix == 0 ==> read_rule(Some(feed), now_unix) == (if feed.updated_at == 0 {
            Some(feed)
        } else {
            None
        }),
        read_rule(None::<HostFeedFile<N, P>>, now_unix) is None,
{
}

/// Law: the read rule in seconds. The feed age is `now_unix - updated_at`,
/// or 0 for a stamp from the future; with the clock available a decoded feed
/// is kept, unchanged, exactly when it is at most 120 seconds old; with no
/// clock exactly when it is stamped 0; an undecoded feed is never kept.
pub proof fn lemma_read_rule_in_seconds<N, P>(feed: HostFeedFile<N, P>, now_unix: u64)
    ensures
        STALE_AFTER_SECS == 120,
        now_unix >= feed.updated_at ==> feed_age(feed.updated_at, now_unix) == now_unix
            - feed.updated_at,
        now_unix < feed.updated_at ==> feed_age(feed.updated_at, now_unix) == 0,
        now_unix != 0 ==> (stale_at(feed.updated_at, now_unix) <==> now_unix - feed.updated_at
            > 120),
        now_unix != 0 && now_unix - feed.updated_at <= 120 ==> read_rule(Some(feed), now_unix)
            == Some(feed),
        now_unix != 0 && now_unix - feed.updated_at > 120 ==> read_rule(Some(feed), now_unix)
            is None,
        now_unix == 0 ==> (read_rule(Some(feed), now_unix) is Some <==> feed.updated_at == 0),
        read_rule(None::<HostFeedFile<N, P>>, now_unix) is None,
{
}

/// The `serde` default of an interface's `state` field: a link whose state the
/// collector did not write reads as `"up"`.
pub fn net_up() -> (state: String)
    ensures
        state@ == seq!['u', 'p'],
{
    let state = String::from_str("up");
    proof {
        reveal_strlit("up");
    }
    state
}

#[verifier::external_type_specification]
#[verifier::external_body]
pub struct ExSystemTime(std::time::SystemTime);

/// Calls `std::time::SystemTime::now`, the current wall-clock time. Nothing is
/// claimed of the value: it is the machine's clock.
#[verifier::external_body]
fn system_time_now() -> std::time::SystemTime {
    std::time::SystemTime::now()
}

/// Calls `SystemTime::duration_since(UNIX_EPOCH)` on `t`; the error (a clock
/// before the epoch) becomes `None`. Nothing is claimed of the duration.
#[verifier::external_body]
fn duration_since_unix_epoch(t: &std::time::SystemTime) -> Option<std::time::Duration> {
    t.duration_since(std::time::UNIX_EPOCH).ok()
}

/// Calls `Duration::as_secs`: the whole seconds of `d`. Nothing is claimed of
/// the value, since the duration itself is opaque here.
#[verifier::external_body]
fn duration_whole_secs(d: &std::time::Duration) -> u64 {
    d.as_secs()
}

/// The Unix time to use from a clock reading: the seconds since the epoch, or
/// `0` when the clock could not be read (a feed then reads as fresh only when
/// its stamp is also 0).
pub fn unix_secs_or_zero(since_epoch: Option<u64>) -> (secs: u64)
    ensures
        secs == match since_epoch {
            Some(s) => s,
            None => 0,
        },
{
    match since_epoch {
        Some(s) => s,
        None => 0,
    }
}

/// Current Unix time in seconds; `0` when the clock is unavailable.
pub fn now_unix() -> u64 {
    let now = system_time_now();
    let since_epoch = match duration_since_unix_epoch(&now) {
        Some(d) => Some(duration_whole_secs(&d)),
        None => None,
    };
    unix_secs_or_zero(since_epoch)
}

} // verus!

//! ALARM checksum validation, by downloading the whole tarball.
//!
//! The checksum of the tarball is computed with
//! [`Hasher`](crate::digest::Hasher) while it is downloaded in chunks.

use vstd::prelude::*;
use vstd::string::*;

use crate::cache;
use crate::checksums;
use crate::checksums::{ChecksumHistory, Verdict};
use crate::text;

verus! {

/// Minimum nanoseconds between new download attempts.
pub const MIN_INTERVAL: i64 = 3_600_000_000_000;

/// What an [`AlarmChecksumCache`] holds.
pub struct AlarmChecksumCacheView {
    pub enabled: bool,
    pub last_update: i64,
    pub md5sums: Seq<Seq<char>>,
}

impl AlarmChecksumCacheView {
    /// What can be said of `md5sum` without a download.
    pub open spec fn verdict(self, md5sum: Seq<char>, now: i64) -> Verdict {
        if !self.enabled || checksums::latest(self.md5sums) == Some(md5sum) {
            Verdict::Approved
        } else if checksums::outdated(self.md5sums, md5sum) {
            Verdict::Rejected
        } else if now - self.last_update < MIN_INTERVAL {
            Verdict::Rejected
        } else {
            Verdict::Unknown
        }
    }

    /// The cache after a download, given the tarball's checksum.
    pub open spec fn updated(self, now: i64, downloaded: Option<Seq<char>>) -> AlarmChecksumCacheView {
        AlarmChecksumCacheView {
            last_update: now,
            md5sums: match downloaded {
                Some(checksum) => checksums::recorded(self.md5sums, checksum),
                None => self.md5sums,
            },
            ..self
        }
    }
}

/// Checksum cache for the latest ALARM tarball.
///
/// Times are nanoseconds on a monotonic clock.
pub struct AlarmChecksumCache {
    last_update: i64,
    history: ChecksumHistory,
    enabled: bool,
}

impl View for AlarmChecksumCache {
    type V = AlarmChecksumCacheView;

    closed spec fn view(&self) -> AlarmChecksumCacheView {
        AlarmChecksumCacheView {
            enabled: self.enabled,
            last_update: self.last_update,
            md5sums: self.history@,
        }
    }
}

impl AlarmChecksumCache {
    /// Creates the cache from the `VALIDATE_TARBALL_MD5` environment variable
    /// and the stored checksums.
    pub fn new(variable: Option<&str>, cached: Option<&str>, now: i64) -> (cache: Self)
        requires
            now - MIN_INTERVAL >= i64::MIN,
        ensures
            cache@.enabled == cache::validation_enabled(variable),
            cache@.last_update == now - MIN_INTERVAL,
            match cached {
                Some(cached) => cache@.md5sums == checksums::loaded(cached@),
                None => cache@.md5sums == Seq::<Seq<char>>::empty(),
            },
    {
        let enabled = match variable {
            Some(value) => !text::same_text(value, "0"),
            None => true,
        };
        AlarmChecksumCache {
            enabled,
            last_update: now - MIN_INTERVAL,
            history: ChecksumHistory::load(cached),
        }
    }

    /// Get the latest known checksum.
    pub fn latest(&self) -> (checksum: Option<String>)
        ensures
            text::optional(checksum) == checksums::latest(self@.md5sums),
    {
        self.history.latest()
    }

    /// Check if a checksum matches the latest ALARM tarball checksum.
    ///
    /// Where this requires a download, [`AlarmChecksumCache::is_downloaded`]
    /// completes the check.
    pub fn is_latest(&self, md5sum: &str, now: i64) -> (verdict: Verdict)
        ensures
            verdict == self@.verdict(md5sum@, now),
    {
        // Approve all checksums when disabled.
        if !self.enabled {
            return Verdict::Approved;
        }

        // Short-circuit for trivial checksum matches.
        if self.history.is_latest(md5sum) {
            return Verdict::Approved;
        }

        // Disqualify known old checksums.
        if self.history.is_outdated(md5sum) {
            return Verdict::Rejected;
        }

        // If the last update was recently, assume the checksum is invalid.
        if (now as i128 - self.last_update as i128) < MIN_INTERVAL as i128 {
            return Verdict::Rejected;
        }
        Verdict::Unknown
    }

    /// Take note of the checksum of the tarball which was downloaded after
    /// `now`.
    ///
    /// Returns the text in which the known checksums must be stored, if they
    /// have changed.
    pub fn update(&mut self, now: i64, downloaded: &Option<String>) -> (stored: Option<String>)
        ensures
            final(self)@ == old(self)@.updated(now, text::optional(*downloaded)),
            text::optional(stored) == (if downloaded is Some && checksums::latest(
                old(self)@.md5sums,
            ) != text::optional(*downloaded) {
                Some(checksums::stored(final(self)@.md5sums))
            } else {
                None
            }),
    {
        self.last_update = now;
        match downloaded {
            Some(checksum) => if self.history.record(checksum.as_str()) {
                Some(self.history.to_text())
            } else {
                None
            },
            None => None,
        }
    }

    /// Check if a checksum matches the latest known one, after a download.
    pub fn is_downloaded(&self, md5sum: &str) -> (approved: bool)
        ensures
            approved == (checksums::latest(self@.md5sums) == Some(md5sum@)),
    {
        self.history.is_latest(md5sum)
    }
}

/// A tarball is downloaded at most once per interval: after a download every
/// checksum is either approved or rejected until the interval has passed.
pub proof fn law_downloads_are_debounced(
    cache: AlarmChecksumCacheView,
    now: i64,
    downloaded: Option<Seq<char>>,
    md5sum: Seq<char>,
    later: i64,
)
    requires
        later - now < MIN_INTERVAL,
    ensures
        cache.updated(now, downloaded).verdict(md5sum, later) != Verdict::Unknown,
{
}

/// As long as checksums are compared, one which is known to be outdated is
/// rejected at any time, without a download.
pub proof fn law_outdated_checksum_is_rejected(
    cache: AlarmChecksumCacheView,
    md5sum: Seq<char>,
    now: i64,
)
    requires
        cache.enabled,
        checksums::outdated(cache.md5sums, md5sum),
    ensures
        cache.verdict(md5sum, now) == Verdict::Rejected,
{
}

/// After a download the checksum of the tarball is approved at any time, and as
/// long as checksums are compared no other one is.
pub proof fn law_downloaded_checksum_is_approved(
    cache: AlarmChecksumCacheView,
    now: i64,
    checksum: Seq<char>,
    md5sum: Seq<char>,
    later: i64,
)
    requires
        cache.enabled,
    ensures
        cache.updated(now, Some(checksum)).verdict(md5sum, later) == Verdict::Approved <==> md5sum
            == checksum,
{
}

/// While checksums are compared, exactly the latest known one is approved and
/// each older known one rejected. One which is not known is left to a download
/// if and only if the last one is an hour ago, and rejected otherwise.
pub proof fn law_verdicts(cache: AlarmChecksumCacheView, md5sum: Seq<char>, now: i64)
    ensures
        !cache.enabled ==> cache.verdict(md5sum, now) is Approved,
        cache.enabled && cache.md5sums.contains(md5sum) ==> cache.verdict(md5sum, now) == (
        if cache.md5sums[0] == md5sum {
            Verdict::Approved
        } else {
            Verdict::Rejected
        }),
        cache.enabled && !cache.md5sums.contains(md5sum) ==> cache.verdict(md5sum, now) == (if now
            - cache.last_update >= 60 * 60 * 1_000_000_000 {
            Verdict::Unknown
        } else {
            Verdict::Rejected
        }),
{
    if cache.md5sums.len() > 0 {
        assert(cache.md5sums.contains(cache.md5sums[0]));
    }
}

/// A download sets its time, and puts a new checksum in front of the known ones.
/// It changes nothing else, and without a new checksum nothing but the time.
pub proof fn law_update_of_known_checksums(
    cache: AlarmChecksumCacheView,
    now: i64,
    checksum: Seq<char>,
)
    ensures
        ({
            let after = cache.updated(now, Some(checksum));
            let is_new = cache.md5sums.len() == 0 || cache.md5sums[0] != checksum;
            &&& after.enabled == cache.enabled
            &&& after.last_update == now
            &&& !is_new ==> after.md5sums == cache.md5sums
            &&& is_new ==> after.md5sums.len() > 0 && after.md5sums[0] == checksum
            &&& is_new ==> after.md5sums.len() == if cache.md5sums.len() < 32 {
                cache.md5sums.len() + 1
            } else {
                32
            }
            &&& is_new ==> forall|i: int|
                0 < i < after.md5sums.len() ==> #[trigger] after.md5sums[i] == cache.md5sums[i - 1]
        }),
        cache.updated(now, None).enabled == cache.enabled,
        cache.updated(now, None).last_update == now,
        cache.updated(now, None).md5sums == cache.md5sums,
{
}

} // verus!

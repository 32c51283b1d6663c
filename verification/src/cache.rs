//! Memory caches.

use vstd::prelude::*;
use vstd::string::*;

use crate::checksums;
use crate::checksums::{ChecksumHistory, Verdict};
use crate::error::{Error, IoErrorKind};
use crate::paths;
use crate::text;

verus! {

/// Minimum nanoseconds between new download attempts.
pub const MIN_INTERVAL: i64 = 300_000_000_000;

/// What an update of the checksum waits for.
#[derive(Copy, Clone, PartialEq, Eq, Structural, Debug)]
pub enum UpdateStage {
    /// The published checksum.
    Download,
    /// The storage of the known checksums.
    Store,
    /// The removal of all finished requests.
    DeleteDone,
    /// The removal of all images.
    RemoveImages,
    /// Nothing, since the update is finished.
    Over,
}

/// How a step of an update went.
pub enum UpdateEvent {
    /// The published checksum, if it could be downloaded.
    Downloaded(Option<String>),
    /// The known checksums were stored, as far as possible.
    Stored,
    /// The finished requests were removed, as far as possible.
    DoneDeleted,
    /// The images were removed, as far as possible.
    ImagesRemoved,
}

/// What has to be done next for an update.
#[derive(PartialEq, Eq, Debug)]
pub enum UpdateStep {
    /// Download the published checksum.
    Download,
    /// Store this text, which holds the known checksums.
    Store(String),
    /// Remove all finished requests.
    DeleteDone,
    /// Remove the image directory.
    RemoveImages,
    /// Nothing. This is the new checksum, if it has changed.
    Finished(Option<String>),
}

/// What an [`UpdateStep`] holds.
pub enum UpdateStepView {
    Download,
    Store(Seq<char>),
    DeleteDone,
    RemoveImages,
    Finished(Option<Seq<char>>),
}

impl View for UpdateStep {
    type V = UpdateStepView;

    open spec fn view(&self) -> UpdateStepView {
        match self {
            UpdateStep::Download => UpdateStepView::Download,
            UpdateStep::Store(stored) => UpdateStepView::Store(stored@),
            UpdateStep::DeleteDone => UpdateStepView::DeleteDone,
            UpdateStep::RemoveImages => UpdateStepView::RemoveImages,
            UpdateStep::Finished(news) => UpdateStepView::Finished(text::optional(*news)),
        }
    }
}

/// What a [`ChecksumUpdate`] holds.
pub struct ChecksumUpdateView {
    pub stage: UpdateStage,
    pub now: i64,
    pub news: Option<Seq<char>>,
}

impl ChecksumUpdateView {
    /// Whether `event` is what the update waits for.
    pub open spec fn expects(self, event: UpdateEvent) -> bool {
        match event {
            UpdateEvent::Downloaded(_) => self.stage == UpdateStage::Download,
            UpdateEvent::Stored => self.stage == UpdateStage::Store,
            UpdateEvent::DoneDeleted => self.stage == UpdateStage::DeleteDone,
            UpdateEvent::ImagesRemoved => self.stage == UpdateStage::RemoveImages,
        }
    }

    /// What is done after `event`, given the cache before it.
    pub open spec fn step(self, cache: AlarmChecksumCacheView, event: UpdateEvent) -> UpdateStepView {
        match event {
            UpdateEvent::Downloaded(downloaded) => if cache.news(text::optional(downloaded)) is Some {
                UpdateStepView::Store(
                    checksums::stored(cache.updated(self.now, text::optional(downloaded)).md5sums),
                )
            } else {
                UpdateStepView::Finished(None)
            },
            UpdateEvent::Stored => UpdateStepView::DeleteDone,
            UpdateEvent::DoneDeleted => UpdateStepView::RemoveImages,
            UpdateEvent::ImagesRemoved => UpdateStepView::Finished(self.news),
        }
    }

    /// The update after `event`, given the cache before it.
    pub open spec fn after(self, cache: AlarmChecksumCacheView, event: UpdateEvent) -> ChecksumUpdateView {
        ChecksumUpdateView {
            stage: match self.step(cache, event) {
                UpdateStepView::Download => UpdateStage::Download,
                UpdateStepView::Store(_) => UpdateStage::Store,
                UpdateStepView::DeleteDone => UpdateStage::DeleteDone,
                UpdateStepView::RemoveImages => UpdateStage::RemoveImages,
                UpdateStepView::Finished(_) => UpdateStage::Over,
            },
            news: match event {
                UpdateEvent::Downloaded(downloaded) => cache.news(text::optional(downloaded)),
                UpdateEvent::ImagesRemoved => None,
                _ => self.news,
            },
            ..self
        }
    }
}

/// An update of the checksum in progress.
///
/// Whoever runs it performs each step and hands back how that went, until the
/// update is finished.
pub struct ChecksumUpdate {
    stage: UpdateStage,
    now: i64,
    news: Option<String>,
}

impl View for ChecksumUpdate {
    type V = ChecksumUpdateView;

    closed spec fn view(&self) -> ChecksumUpdateView {
        ChecksumUpdateView {
            stage: self.stage,
            now: self.now,
            news: text::optional(self.news),
        }
    }
}

impl ChecksumUpdate {
    /// Whether `event` is what the update waits for.
    pub fn expects(&self, event: &UpdateEvent) -> (expected: bool)
        ensures
            expected == self@.expects(*event),
    {
        match event {
            UpdateEvent::Downloaded(_) => self.stage == UpdateStage::Download,
            UpdateEvent::Stored => self.stage == UpdateStage::Store,
            UpdateEvent::DoneDeleted => self.stage == UpdateStage::DeleteDone,
            UpdateEvent::ImagesRemoved => self.stage == UpdateStage::RemoveImages,
        }
    }
}

/// What an [`AlarmChecksumCache`] holds.
pub struct AlarmChecksumCacheView {
    pub enabled: bool,
    pub last_update: i64,
    pub md5sums: Seq<Seq<char>>,
}

impl AlarmChecksumCacheView {
    /// Whether the last update is long enough ago for another one.
    pub open spec fn update_due(self, now: i64) -> bool {
        now - self.last_update >= MIN_INTERVAL
    }

    /// The cache after an update, given the checksum which was downloaded.
    pub open spec fn updated(self, now: i64, downloaded: Option<Seq<char>>) -> AlarmChecksumCacheView {
        AlarmChecksumCacheView {
            last_update: now,
            md5sums: match downloaded {
                Some(checksum) => checksums::recorded(self.md5sums, checksum),
                None => self.md5sums,
            },
            ..self
        }
    }

    /// What an update finds out: the downloaded checksum, if it is a new one.
    pub open spec fn news(self, downloaded: Option<Seq<char>>) -> Option<Seq<char>> {
        if downloaded is Some && checksums::latest(self.md5sums) != downloaded {
            downloaded
        } else {
            None
        }
    }

    /// How an update begins: what it waits for, and what is done first.
    pub open spec fn begin(self, now: i64) -> (ChecksumUpdateView, UpdateStepView) {
        if self.update_due(now) {
            (
                ChecksumUpdateView { stage: UpdateStage::Download, now, news: None },
                UpdateStepView::Download,
            )
        } else {
            (
                ChecksumUpdateView { stage: UpdateStage::Over, now, news: None },
                UpdateStepView::Finished(None),
            )
        }
    }

    /// The cache after an event of an update.
    pub open spec fn after(self, update: ChecksumUpdateView, event: UpdateEvent) -> AlarmChecksumCacheView {
        match event {
            UpdateEvent::Downloaded(downloaded) => self.updated(
                update.now,
                text::optional(downloaded),
            ),
            _ => self,
        }
    }

    /// What can be said of `md5sum` without an update.
    pub open spec fn verdict(self, md5sum: Seq<char>, now: i64) -> Verdict {
        if !self.enabled || checksums::latest(self.md5sums) == Some(md5sum) {
            Verdict::Approved
        } else if checksums::outdated(self.md5sums, md5sum) {
            Verdict::Rejected
        } else if self.update_due(now) {
            Verdict::Unknown
        } else {
            Verdict::Rejected
        }
    }
}

/// Whether checksums are compared at all, given the `VALIDATE_TARBALL_MD5`
/// environment variable.
pub open spec fn validation_enabled(variable: Option<&str>) -> bool {
    match variable {
        Some(value) => value@ != "0"@,
        None => true,
    }
}

/// Checksum cache for the latest ALARM tarball.
///
/// Times are nanoseconds on a monotonic clock.
pub struct AlarmChecksumCache {
    data: AlarmChecksumCacheData,
    enabled: bool,
}

impl View for AlarmChecksumCache {
    type V = AlarmChecksumCacheView;

    closed spec fn view(&self) -> AlarmChecksumCacheView {
        AlarmChecksumCacheView {
            enabled: self.enabled,
            last_update: self.data.last_update,
            md5sums: self.data.history@,
        }
    }
}

impl AlarmChecksumCache {
    /// Creates the cache from the `VALIDATE_TARBALL_MD5` environment variable
    /// and the stored checksums.
    pub fn new(variable: Option<&str>, cached: Option<&str>, now: i64) -> (cache: Self)
        requires
            now - MIN_INTERVAL >= i64::MIN,
        ensures
            cache@.enabled == validation_enabled(variable),
            cache@.last_update == now - MIN_INTERVAL,
            match cached {
                Some(cached) => cache@.md5sums == checksums::loaded(cached@),
                None => cache@.md5sums == Seq::<Seq<char>>::empty(),
            },
            cache@.update_due(now),
    {
        let enabled = match variable {
            Some(value) => !text::same_text(value, "0"),
            None => true,
        };
        AlarmChecksumCache { enabled, data: AlarmChecksumCacheData::new(cached, now) }
    }

    /// Get the latest known checksum.
    pub fn latest(&self) -> (checksum: Option<String>)
        ensures
            text::optional(checksum) == checksums::latest(self@.md5sums),
    {
        self.data.history.latest()
    }

    /// Check if a checksum matches the latest ALARM tarball checksum.
    ///
    /// Where this requires an update, [`AlarmChecksumCache::matches_update`]
    /// completes the check.
    pub fn is_latest(&self, md5sum: &str, now: i64) -> (verdict: Verdict)
        ensures
            verdict == self@.verdict(md5sum@, now),
    {
        // Approve all checksums when disabled.
        if !self.enabled {
            return Verdict::Approved;
        }

        // Short-circuit for trivial checksum matches.
        if self.data.history.is_latest(md5sum) {
            return Verdict::Approved;
        }

        // Disqualify known old checksums.
        if self.data.history.is_outdated(md5sum) {
            return Verdict::Rejected;
        }

        // Debounce excessive update requests.
        if self.update_due(now) {
            Verdict::Unknown
        } else {
            Verdict::Rejected
        }
    }

    /// Check if a checksum which is not the latest known one matches what an
    /// update found out.
    pub fn matches_update(update: &Option<String>, md5sum: &str) -> (approved: bool)
        ensures
            approved == (text::optional(*update) == Some(md5sum@)),
    {
        match update {
            Some(md5) => text::same_text(md5.as_str(), md5sum),
            None => false,
        }
    }

    /// Check if enough time has passed since the last update.
    pub fn update_due(&self, now: i64) -> (due: bool)
        ensures
            due == self@.update_due(now),
    {
        now as i128 - self.data.last_update as i128 >= MIN_INTERVAL as i128
    }

    /// Check for ALARM rootfs checksum updates.
    ///
    /// This is skipped if the last update was recently.
    pub fn begin_update(&self, now: i64) -> (started: (ChecksumUpdate, UpdateStep))
        ensures
            (started.0@, started.1@) == self@.begin(now),
    {
        if self.update_due(now) {
            (ChecksumUpdate { stage: UpdateStage::Download, now, news: None }, UpdateStep::Download)
        } else {
            (
                ChecksumUpdate { stage: UpdateStage::Over, now, news: None },
                UpdateStep::Finished(None),
            )
        }
    }

    /// Go on with an update after `event`.
    ///
    /// Whenever the checksum has changed, the known checksums are stored, and
    /// all outdated requests and images are removed. The update ends with the
    /// new checksum if it has changed.
    pub fn update_checksum(&mut self, update: &mut ChecksumUpdate, event: UpdateEvent) -> (step:
        UpdateStep)
        requires
            old(update)@.expects(event),
        ensures
            final(self)@ == old(self)@.after(old(update)@, event),
            final(update)@ == old(update)@.after(old(self)@, event),
            step@ == old(update)@.step(old(self)@, event),
    {
        match event {
            UpdateEvent::Downloaded(downloaded) => {
                self.data.last_update = update.now;
                if let Some(checksum) = downloaded {
                    if self.data.history.record(checksum.as_str()) {
                        update.news = Some(checksum);
                        update.stage = UpdateStage::Store;
                        return UpdateStep::Store(self.data.history.to_text());
                    }
                }
                update.news = None;
                update.stage = UpdateStage::Over;
                UpdateStep::Finished(None)
            },
            UpdateEvent::Stored => {
                update.stage = UpdateStage::DeleteDone;
                UpdateStep::DeleteDone
            },
            UpdateEvent::DoneDeleted => {
                update.stage = UpdateStage::RemoveImages;
                UpdateStep::RemoveImages
            },
            UpdateEvent::ImagesRemoved => {
                update.stage = UpdateStage::Over;
                UpdateStep::Finished(update.news.take())
            },
        }
    }
}

/// Underlying cache data.
struct AlarmChecksumCacheData {
    last_update: i64,
    history: ChecksumHistory,
}

impl AlarmChecksumCacheData {
    fn new(cached: Option<&str>, now: i64) -> (data: Self)
        requires
            now - MIN_INTERVAL >= i64::MIN,
        ensures
            data.last_update == now - MIN_INTERVAL,
            match cached {
                Some(cached) => data.history@ == checksums::loaded(cached@),
                None => data.history@ == Seq::<Seq<char>>::empty(),
            },
    {
        AlarmChecksumCacheData {
            last_update: now - MIN_INTERVAL,
            history: ChecksumHistory::load(cached),
        }
    }
}

/// The cache and the update after a series of events.
pub open spec fn run(
    cache: AlarmChecksumCacheView,
    update: ChecksumUpdateView,
    events: Seq<UpdateEvent>,
) -> (AlarmChecksumCacheView, ChecksumUpdateView)
    decreases events.len(),
{
    if events.len() == 0 {
        (cache, update)
    } else {
        let before = run(cache, update, events.drop_last());
        (before.0.after(before.1, events.last()), before.1.after(before.0, events.last()))
    }
}

/// Whether each event of a series is expected when it occurs.
pub open spec fn is_run(
    cache: AlarmChecksumCacheView,
    update: ChecksumUpdateView,
    events: Seq<UpdateEvent>,
) -> bool
    decreases events.len(),
{
    events.len() > 0 ==> {
        &&& is_run(cache, update, events.drop_last())
        &&& run(cache, update, events.drop_last()).1.expects(events.last())
    }
}

/// An update which is not due finds nothing new and does nothing at all.
pub proof fn law_update_is_skipped_unless_due(
    cache: AlarmChecksumCacheView,
    now: i64,
    event: UpdateEvent,
)
    requires
        !cache.update_due(now),
    ensures
        cache.begin(now).1 == UpdateStepView::Finished(None),
        !cache.begin(now).0.expects(event),
{
}

/// An update which is due downloads the published checksum. If and only if this
/// is a new one, the known checksums are stored, the finished requests removed
/// and the images removed, in this order and whether or not each of these is
/// possible. The update ends with the new checksum, which then is the latest
/// known one.
pub proof fn law_changed_checksum_has_consequences(
    cache: AlarmChecksumCacheView,
    now: i64,
    downloaded: Option<String>,
    events: Seq<UpdateEvent>,
)
    requires
        cache.update_due(now),
        is_run(cache, cache.begin(now).0, events),
        events.len() > 0,
        events[0] == UpdateEvent::Downloaded(downloaded),
        run(cache, cache.begin(now).0, events).1.stage == UpdateStage::Over,
    ensures
        cache.begin(now).1 == UpdateStepView::Download,
        ({
            let news = cache.news(text::optional(downloaded));
            let after = cache.updated(now, text::optional(downloaded));
            let first = cache.begin(now).0;
            let second = first.after(cache, events[0]);
            let third = second.after(after, events[1]);
            let fourth = third.after(after, events[2]);
            &&& run(cache, first, events).0 == after
            &&& news is None ==> {
                &&& events.len() == 1
                &&& first.step(cache, events[0]) == UpdateStepView::Finished(None)
            }
            &&& news is Some ==> {
                &&& events.len() == 4
                &&& first.step(cache, events[0]) == UpdateStepView::Store(
                    checksums::stored(after.md5sums),
                )
                &&& events[1] == UpdateEvent::Stored
                &&& second.step(after, events[1]) == UpdateStepView::DeleteDone
                &&& events[2] == UpdateEvent::DoneDeleted
                &&& third.step(after, events[2]) == UpdateStepView::RemoveImages
                &&& events[3] == UpdateEvent::ImagesRemoved
                &&& fourth.step(after, events[3]) == UpdateStepView::Finished(news)
                &&& checksums::latest(after.md5sums) == news
            }
        }),
{
    lemma_update_course(cache, now, downloaded, events);
}

/// How far an update has come after a series of events.
proof fn lemma_update_course(
    cache: AlarmChecksumCacheView,
    now: i64,
    downloaded: Option<String>,
    events: Seq<UpdateEvent>,
)
    requires
        cache.update_due(now),
        is_run(cache, cache.begin(now).0, events),
        events.len() > 0,
        events[0] == UpdateEvent::Downloaded(downloaded),
    ensures
        ({
            let news = cache.news(text::optional(downloaded));
            let (reached, update) = run(cache, cache.begin(now).0, events);
            &&& reached == cache.updated(now, text::optional(downloaded))
            &&& update.stage == (if news is None || events.len() == 4 {
                UpdateStage::Over
            } else if events.len() == 1 {
                UpdateStage::Store
            } else if events.len() == 2 {
                UpdateStage::DeleteDone
            } else {
                UpdateStage::RemoveImages
            })
            &&& news is None ==> events.len() == 1
            &&& events.len() <= 4
            &&& events.len() > 1 ==> events[1] == UpdateEvent::Stored
            &&& events.len() > 2 ==> events[2] == UpdateEvent::DoneDeleted
            &&& events.len() > 3 ==> events[3] == UpdateEvent::ImagesRemoved
        }),
    decreases events.len(),
{
    let earlier = events.drop_last();
    if events.len() == 1 {
        assert(earlier =~= Seq::<UpdateEvent>::empty());
        assert(run(cache, cache.begin(now).0, earlier) == (cache, cache.begin(now).0));
    } else {
        lemma_update_course(cache, now, downloaded, earlier);
        assert(forall|i: int| 0 <= i < earlier.len() ==> earlier[i] == events[i]);
    }
}

/// After an update no other one is due, and nothing is downloaded, until the
/// minimum interval has passed.
pub proof fn law_updates_are_debounced(
    cache: AlarmChecksumCacheView,
    now: i64,
    downloaded: Option<Seq<char>>,
    later: i64,
)
    ensures
        cache.updated(now, downloaded).update_due(later) <==> later - now >= MIN_INTERVAL,
        cache.updated(now, downloaded).begin(later).1 == UpdateStepView::Download <==> later - now
            >= MIN_INTERVAL,
{
}

/// After an update the downloaded checksum is the latest known one. It is
/// approved, and as long as checksums are compared no other one is.
pub proof fn law_downloaded_checksum_is_approved(
    cache: AlarmChecksumCacheView,
    now: i64,
    checksum: Seq<char>,
    md5sum: Seq<char>,
    later: i64,
)
    ensures
        checksums::latest(cache.updated(now, Some(checksum)).md5sums) == Some(checksum),
        cache.updated(now, Some(checksum)).verdict(md5sum, later) == Verdict::Approved <==> {
            ||| md5sum == checksum
            ||| !cache.enabled
        },
{
}

/// As long as checksums are compared, one which is known to be outdated is
/// rejected at any time, in particular the one which an update has replaced.
pub proof fn law_outdated_checksum_is_rejected(
    cache: AlarmChecksumCacheView,
    md5sum: Seq<char>,
    now: i64,
    checksum: Seq<char>,
    later: i64,
)
    requires
        cache.enabled,
    ensures
        checksums::outdated(cache.md5sums, md5sum) ==> cache.verdict(md5sum, later)
            == Verdict::Rejected,
        checksums::latest(cache.md5sums) == Some(md5sum) && md5sum != checksum ==> cache.updated(
            now,
            Some(checksum),
        ).verdict(md5sum, later) == Verdict::Rejected,
{
    if checksums::latest(cache.md5sums) == Some(md5sum) && md5sum != checksum {
        checksums::law_superseded_checksum_is_outdated(cache.md5sums, checksum);
    }
}

/// A checksum of which nothing is known matches what an update finds out if and
/// only if it is the one which was downloaded.
pub proof fn law_unknown_checksum_must_be_downloaded(
    cache: AlarmChecksumCacheView,
    md5sum: Seq<char>,
    now: i64,
    downloaded: Option<Seq<char>>,
)
    requires
        cache.verdict(md5sum, now) == Verdict::Unknown,
    ensures
        cache.news(downloaded) == Some(md5sum) <==> downloaded == Some(md5sum),
{
}

/// Without validation every checksum is approved.
pub proof fn law_disabled_validation_approves_all(
    cache: AlarmChecksumCacheView,
    md5sum: Seq<char>,
    now: i64,
)
    requires
        !cache.enabled,
    ensures
        cache.verdict(md5sum, now) == Verdict::Approved,
{
}

/// A second update with the same checksum finds nothing new, and a failed
/// download never does.
pub proof fn law_news_are_told_once(
    cache: AlarmChecksumCacheView,
    now: i64,
    downloaded: Option<Seq<char>>,
)
    ensures
        cache.updated(now, downloaded).news(downloaded) is None,
        cache.news(None) is None,
{
}

/// A path and whether it belongs to a file.
pub struct DirectoryEntry {
    pub path: Vec<u8>,
    pub is_file: bool,
}

/// The files among the entries of a directory.
pub open spec fn files(entries: Seq<DirectoryEntry>) -> Seq<Seq<u8>>
    decreases entries.len(),
{
    if entries.len() == 0 {
        Seq::empty()
    } else if entries.last().is_file {
        files(entries.drop_last()).push(entries.last().path@)
    } else {
        files(entries.drop_last())
    }
}

/// Whether `path` leads to the image at position `i` of `images` and to none
/// behind it.
pub open spec fn is_last_position(images: Seq<Seq<u8>>, path: Seq<u8>, i: int) -> bool {
    &&& 0 <= i < images.len()
    &&& paths::same_path(images[i], path)
    &&& forall|j: int| i < j < images.len() ==> !paths::same_path(#[trigger] images[j], path)
}

/// Whether `path` leads to one of `images`.
pub open spec fn is_known(images: Seq<Seq<u8>>, path: Seq<u8>) -> bool {
    exists|i: int| 0 <= i < images.len() && paths::same_path(#[trigger] images[i], path)
}

/// `images` after an access to `path`: the image moves to the front.
pub open spec fn after_access(images: Seq<Seq<u8>>, path: Seq<u8>) -> Seq<Seq<u8>> {
    if is_known(images, path) {
        let i = choose|i: int| is_last_position(images, path, i);
        seq![images[i]] + images.remove(i)
    } else {
        images
    }
}

proof fn lemma_access_at(images: Seq<Seq<u8>>, path: Seq<u8>, i: int)
    requires
        is_last_position(images, path, i),
    ensures
        is_known(images, path),
        after_access(images, path) == seq![images[i]] + images.remove(i),
{
    assert(paths::same_path(images[i], path));
    let k = choose|k: int| is_last_position(images, path, k);
    assert(is_last_position(images, path, k));
    if k < i {
        assert(!paths::same_path(images[i], path));
    } else if i < k {
        assert(!paths::same_path(images[k], path));
    }
}

/// What has to be done next to make space available.
#[derive(PartialEq, Eq, Debug)]
pub enum SpaceStep {
    /// There is enough space.
    Enough,
    /// The image at this path must be removed.
    Remove(Vec<u8>),
}

/// What a [`SpaceStep`] holds, or that there is none.
pub enum SpaceStepView {
    /// There is enough space.
    Enough,
    /// The image at this path must be removed.
    Remove(Seq<u8>),
    /// There is not enough space, and no image is left.
    Short,
}

/// What has to be done next to make `required` bytes available, given that
/// `available` bytes are already: the least recently used image is removed,
/// unless there is enough space or no image is left.
pub open spec fn space_step(images: Seq<Seq<u8>>, available: nat, required: nat) -> SpaceStepView {
    if available >= required {
        SpaceStepView::Enough
    } else if images.len() > 0 {
        SpaceStepView::Remove(images.last())
    } else {
        SpaceStepView::Short
    }
}

/// Writeable installation image LRU cache.
///
/// Images are known by their paths, from the most to the least recently used.
pub struct ImageCacheData {
    images: Vec<Vec<u8>>,
}

impl View for ImageCacheData {
    type V = Seq<Seq<u8>>;

    closed spec fn view(&self) -> Seq<Seq<u8>> {
        paths::path_views(self.images@)
    }
}

impl ImageCacheData {
    /// Creates the cache from the entries of the image directory.
    pub fn new(entries: Vec<DirectoryEntry>) -> (cache: Self)
        ensures
            cache@ == files(entries@),
    {
        let mut images: Vec<Vec<u8>> = Vec::new();
        let mut i: usize = 0;
        assert(entries@.take(0) =~= Seq::<DirectoryEntry>::empty());
        assert(paths::path_views(images@) =~= files(entries@.take(0)));
        while i < entries.len()
            invariant
                i <= entries@.len(),
                paths::path_views(images@) == files(entries@.take(i as int)),
            decreases entries@.len() - i,
        {
            let ghost before = paths::path_views(images@);
            assert(entries@.take(i + 1).drop_last() =~= entries@.take(i as int));
            if entries[i].is_file {
                images.push(vstd::slice::slice_to_vec(entries[i].path.as_slice()));
                assert(paths::path_views(images@) =~= before.push(entries@[i as int].path@));
            }
            i += 1;
        }
        assert(entries@.take(i as int) =~= entries@);
        ImageCacheData { images }
    }

    /// Update last access time for a cache entry.
    pub fn accessed(&mut self, path: &[u8])
        ensures
            final(self)@ == after_access(old(self)@, path@),
    {
        let ghost images = self@;
        let mut i: usize = self.images.len();
        while i > 0
            invariant
                i <= self.images@.len(),
                images == old(self)@,
                self@ == images,
                forall|j: int|
                    i <= j < images.len() ==> !paths::same_path(#[trigger] images[j], path@),
            decreases i,
        {
            i -= 1;
            if paths::equal_paths(self.images[i].as_slice(), path) {
                assert(is_last_position(images, path@, i as int));
                proof {
                    lemma_access_at(images, path@, i as int);
                }
                let image = self.images.remove(i);
                assert(self@ =~= images.remove(i as int));
                self.images.insert(0, image);
                assert(self@ =~= seq![images[i as int]] + images.remove(i as int));
                return;
            }
        }
        assert(!is_known(images, path@));
    }

    /// Make `required` bytes available for future image writes, given that
    /// `available` bytes are already.
    ///
    /// As long as the space does not suffice, the least recently used image has
    /// to be removed. It is an error if there are none left.
    pub fn free_space(&self, available: u64, required: u64) -> (step: Result<SpaceStep, Error>)
        ensures
            ({
                let next = space_step(self@, available as nat, required as nat);
                match step {
                    Ok(SpaceStep::Enough) => next == SpaceStepView::Enough,
                    Ok(SpaceStep::Remove(path)) => next == SpaceStepView::Remove(path@),
                    Err(error) => {
                        &&& next == SpaceStepView::Short
                        &&& error matches Error::Io(kind, message)
                        &&& kind == IoErrorKind::StorageFull
                        &&& message@ == "insufficient storage left for image"@
                    },
                }
            }),
    {
        if available >= required {
            return Ok(SpaceStep::Enough);
        }
        let count: usize = self.images.len();
        if count > 0 {
            assert(self.images@[count - 1]@ == self@.last());
            Ok(SpaceStep::Remove(vstd::slice::slice_to_vec(self.images[count - 1].as_slice())))
        } else {
            Err(
                Error::Io(
                    IoErrorKind::StorageFull,
                    "insufficient storage left for image".to_owned(),
                ),
            )
        }
    }

    /// Forget the least recently used image after its removal, which made
    /// `size` bytes available.
    ///
    /// Returns the number of bytes which are available now.
    pub fn removed(&mut self, available: u64, size: u64) -> (now_available: u64)
        requires
            old(self)@.len() > 0,
            available + size <= u64::MAX,
        ensures
            final(self)@ == old(self)@.drop_last(),
            now_available == available + size,
    {
        let ghost images = self@;
        self.images.pop();
        assert(self@ =~= images.drop_last());
        available + size
    }

    /// Add an image's path to the cache.
    pub fn add(&mut self, path: Vec<u8>)
        ensures
            final(self)@ == seq![path@] + old(self)@,
    {
        let ghost images = self@;
        self.images.insert(0, path);
        assert(self@ =~= seq![path@] + images);
    }
}

/// The most recently used image stands first after an access, and no image is
/// lost or added.
pub proof fn law_accessed_image_comes_first(images: Seq<Seq<u8>>, path: Seq<u8>)
    requires
        is_known(images, path),
    ensures
        paths::same_path(after_access(images, path)[0], path),
        after_access(images, path).len() == images.len(),
        after_access(images, path).to_multiset() == images.to_multiset(),
{
    let i = lemma_last_position(images, path, images.len() as int);
    lemma_access_at(images, path, i);
    let rest = images.remove(i);
    broadcast use {
        vstd::seq_lib::group_to_multiset_ensures,
        vstd::multiset::group_multiset_axioms,
    };

    assert(seq![images[i]] + rest =~= rest.insert(0, images[i]));
    vstd::seq_lib::to_multiset_insert(rest, 0, images[i]);
    vstd::seq_lib::to_multiset_remove(images, i);
    assert(after_access(images, path).to_multiset() =~= images.to_multiset());
}

/// An access leaves the other images in their order: those which were used
/// more recently than the accessed one move back by one place, all others keep
/// their places.
pub proof fn law_access_keeps_order(images: Seq<Seq<u8>>, path: Seq<u8>, i: int, j: int)
    requires
        is_last_position(images, path, i),
        0 <= j < images.len(),
        j != i,
    ensures
        after_access(images, path)[if j < i { j + 1 } else { j }] == images[j],
{
    lemma_access_at(images, path, i);
}

/// Accessing the image which was accessed last changes nothing, if it is known
/// only once.
pub proof fn law_access_is_idempotent(images: Seq<Seq<u8>>, path: Seq<u8>)
    requires
        forall|i: int, j: int|
            0 <= i < j < images.len() ==> !paths::same_path(#[trigger] images[i], path)
                || !paths::same_path(#[trigger] images[j], path),
    ensures
        after_access(after_access(images, path), path) == after_access(images, path),
{
    if is_known(images, path) {
        let i = lemma_last_position(images, path, images.len() as int);
        lemma_access_at(images, path, i);
        let after = after_access(images, path);
        assert forall|j: int| 0 < j < after.len() implies !paths::same_path(
            #[trigger] after[j],
            path,
        ) by {
            let k = if j <= i {
                j - 1
            } else {
                j
            };
            assert(after[j] == images[k]);
            if k < i {
                assert(!paths::same_path(images[k], path) || !paths::same_path(images[i], path));
            } else {
                assert(!paths::same_path(images[i], path) || !paths::same_path(images[k], path));
            }
        }
        assert(is_last_position(after, path, 0));
        lemma_access_at(after, path, 0);
        assert(after_access(after, path) =~= after);
    }
}

proof fn lemma_last_position(images: Seq<Seq<u8>>, path: Seq<u8>, end: int) -> (i: int)
    requires
        is_known(images, path),
        0 <= end <= images.len(),
        forall|j: int| end <= j < images.len() ==> !paths::same_path(#[trigger] images[j], path),
    ensures
        is_last_position(images, path, i),
    decreases end,
{
    let k = choose|k: int| 0 <= k < images.len() && paths::same_path(#[trigger] images[k], path);
    assert(k < end);
    if paths::same_path(images[end - 1], path) {
        end - 1
    } else {
        lemma_last_position(images, path, end - 1)
    }
}

/// The bytes which removing the `count` least recently used images makes
/// available.
pub open spec fn freed(images: Seq<Seq<u8>>, size: spec_fn(Seq<u8>) -> nat, count: nat) -> nat
    decreases count,
{
    if count == 0 || images.len() == 0 {
        0
    } else {
        size(images.last()) + freed(images.drop_last(), size, (count - 1) as nat)
    }
}

/// The number of images which are removed to make `required` bytes available.
pub open spec fn removals(
    images: Seq<Seq<u8>>,
    size: spec_fn(Seq<u8>) -> nat,
    available: nat,
    required: nat,
) -> nat
    decreases images.len(),
{
    match space_step(images, available, required) {
        SpaceStepView::Remove(path) => 1 + removals(
            images.drop_last(),
            size,
            available + size(path),
            required,
        ),
        _ => 0,
    }
}

/// Images are removed, from the least recently used one on, until the required
/// space is available and no further. This fails if and only if even the removal
/// of all images does not suffice.
pub proof fn law_space_is_freed(
    images: Seq<Seq<u8>>,
    size: spec_fn(Seq<u8>) -> nat,
    available: nat,
    required: nat,
)
    ensures
        ({
            let count = removals(images, size, available, required);
            let now_available = available + freed(images, size, count);
            &&& count <= images.len()
            &&& forall|fewer: nat|
                fewer < count ==> available + #[trigger] freed(images, size, fewer) < required
            &&& space_step(images.take(images.len() - count), now_available, required) == (
            if available + freed(images, size, images.len()) >= required {
                SpaceStepView::Enough
            } else {
                SpaceStepView::Short
            })
        }),
    decreases images.len(),
{
    let count = removals(images, size, available, required);
    if available < required && images.len() > 0 {
        let rest = images.drop_last();
        let more = available + size(images.last());
        law_space_is_freed(rest, size, more, required);
        assert(rest.take(rest.len() - (count - 1)) =~= images.take(images.len() - count));
        assert forall|fewer: nat| fewer < count implies available + #[trigger] freed(
            images,
            size,
            fewer,
        ) < required by {
            if fewer > 0 {
                let less = (fewer - 1) as nat;
                assert(more + freed(rest, size, less) < required);
            }
        }
    } else {
        assert(images.take(images.len() as int) =~= images);
    }
}

/// Get space available for writing images.
///
/// This is based on the available disk space, given in blocks of `block_size`
/// bytes, with a slight bit of buffer to prevent catastrophic failures.
pub fn available_image_space(available_blocks: u64, block_size: u64, reserved: u64) -> (space: u64)
    requires
        available_blocks * block_size <= u64::MAX,
    ensures
        space == if available_blocks * block_size >= reserved {
            available_blocks * block_size - reserved
        } else {
            0
        },
{
    let available: u64 = available_blocks * block_size;
    if available >= reserved {
        available - reserved
    } else {
        0
    }
}

/// A step of an update holds its parts unchanged.
pub proof fn law_steps_hold_their_parts(stored: String, news: String)
    ensures
        UpdateStep::Download@ is Download,
        UpdateStep::Store(stored)@ == UpdateStepView::Store(stored@),
        UpdateStep::DeleteDone@ is DeleteDone,
        UpdateStep::RemoveImages@ is RemoveImages,
        UpdateStep::Finished(Some(news))@ == UpdateStepView::Finished(Some(news@)),
        UpdateStep::Finished(None)@ == UpdateStepView::Finished(None),
{
}

/// Checksums are compared unless the environment variable is exactly `0`.
pub proof fn law_validation_is_the_default(variable: Option<&str>)
    ensures
        validation_enabled(variable) <==> !(variable matches Some(value) && value@ == "0"@),
{
}

/// While checksums are compared, exactly the latest known one is approved and
/// each older known one rejected. One which is not known is left to a download
/// if and only if the last update is five minutes ago, and rejected otherwise.
pub proof fn law_verdicts(cache: AlarmChecksumCacheView, md5sum: Seq<char>, now: i64)
    ensures
        !cache.enabled ==> cache.verdict(md5sum, now) is Approved,
        cache.enabled && cache.md5sums.contains(md5sum) ==> cache.verdict(md5sum, now) == (
        if cache.md5sums[0] == md5sum {
            Verdict::Approved
        } else {
            Verdict::Rejected
        }),
        cache.enabled && !cache.md5sums.contains(md5sum) ==> cache.verdict(md5sum, now) == (if now
            - cache.last_update >= 5 * 60 * 1_000_000_000 {
            Verdict::Unknown
        } else {
            Verdict::Rejected
        }),
{
    if cache.md5sums.len() > 0 {
        assert(cache.md5sums.contains(cache.md5sums[0]));
    }
}

/// An update is due if and only if the last one is five minutes ago.
pub proof fn law_updates_are_due_after_five_minutes(cache: AlarmChecksumCacheView, now: i64)
    ensures
        cache.update_due(now) <==> now - cache.last_update >= 5 * 60 * 1_000_000_000,
{
}

/// An update sets its time, and puts a new checksum in front of the known ones.
/// It changes nothing else, and without a new checksum nothing but the time.
pub proof fn law_update_of_known_checksums(
    cache: AlarmChecksumCacheView,
    now: i64,
    checksum: Seq<char>,
)
    ensures
        ({
            let after = cache.updated(now, Some(checksum));
            let is_new = cache.md5sums.len() == 0 || cache.md5sums[0] != checksum;
            &&& after.enabled == cache.enabled
            &&& after.last_update == now
            &&& !is_new ==> after.md5sums == cache.md5sums
            &&& is_new ==> after.md5sums.len() > 0 && after.md5sums[0] == checksum
            &&& is_new ==> after.md5sums.len() == if cache.md5sums.len() < 32 {
                cache.md5sums.len() + 1
            } else {
                32
            }
            &&& is_new ==> forall|i: int|
                0 < i < after.md5sums.len() ==> #[trigger] after.md5sums[i] == cache.md5sums[i - 1]
            &&& cache.news(Some(checksum)) == if is_new {
                Some(checksum)
            } else {
                None
            }
        }),
        cache.updated(now, None).enabled == cache.enabled,
        cache.updated(now, None).last_update == now,
        cache.updated(now, None).md5sums == cache.md5sums,
        cache.news(None) is None,
{
}

/// An update waits for one thing at a time, in the order of its steps.
pub proof fn law_update_waits_for_its_step(update: ChecksumUpdateView, event: UpdateEvent)
    ensures
        update.expects(event) <==> {
            ||| update.stage is Download && event is Downloaded
            ||| update.stage is Store && event is Stored
            ||| update.stage is DeleteDone && event is DoneDeleted
            ||| update.stage is RemoveImages && event is ImagesRemoved
        },
{
}

/// If the last update is five minutes ago and a new checksum is published, an
/// update takes it over, has the known checksums stored, the finished requests
/// and the images removed, and tells the new checksum, for every cache.
pub proof fn law_new_checksum_is_taken_over(
    cache: AlarmChecksumCacheView,
    now: i64,
    checksum: String,
)
    requires
        now - cache.last_update >= 5 * 60 * 1_000_000_000,
        cache.md5sums.len() == 0 || cache.md5sums[0] != checksum@,
    ensures
        ({
            let downloaded = UpdateEvent::Downloaded(Some(checksum));
            let (first, step) = cache.begin(now);
            let after = cache.after(first, downloaded);
            let second = first.after(cache, downloaded);
            let third = second.after(after, UpdateEvent::Stored);
            let fourth = third.after(after, UpdateEvent::DoneDeleted);
            let last = fourth.after(after, UpdateEvent::ImagesRemoved);
            &&& step is Download
            &&& first.expects(downloaded)
            &&& after == cache.updated(now, Some(checksum@))
            &&& first.step(cache, downloaded) == UpdateStepView::Store(
                checksums::stored(after.md5sums),
            )
            &&& second.expects(UpdateEvent::Stored)
            &&& second.step(after, UpdateEvent::Stored) is DeleteDone
            &&& after.after(second, UpdateEvent::Stored) == after
            &&& third.expects(UpdateEvent::DoneDeleted)
            &&& third.step(after, UpdateEvent::DoneDeleted) is RemoveImages
            &&& after.after(third, UpdateEvent::DoneDeleted) == after
            &&& fourth.expects(UpdateEvent::ImagesRemoved)
            &&& fourth.step(after, UpdateEvent::ImagesRemoved) == UpdateStepView::Finished(
                Some(checksum@),
            )
            &&& after.after(fourth, UpdateEvent::ImagesRemoved) == after
            &&& last.stage is Over
        }),
{
}

/// If the last update is five minutes ago and no new checksum could be
/// downloaded, an update ends without any news, and nothing has changed but its
/// time. If it is not that long ago, there is no download.
pub proof fn law_update_without_news(
    cache: AlarmChecksumCacheView,
    now: i64,
    downloaded: Option<String>,
)
    requires
        downloaded matches Some(checksum) ==> cache.md5sums.len() > 0 && cache.md5sums[0]
            == checksum@,
    ensures
        ({
            let event = UpdateEvent::Downloaded(downloaded);
            let (update, step) = cache.begin(now);
            let after = cache.after(update, event);
            &&& now - cache.last_update >= 5 * 60 * 1_000_000_000 ==> {
                &&& step is Download
                &&& update.expects(event)
                &&& update.step(cache, event) == UpdateStepView::Finished(None)
                &&& update.after(cache, event).stage is Over
                &&& after.md5sums == cache.md5sums
                &&& after.enabled == cache.enabled
                &&& after.last_update == now
            }
            &&& now - cache.last_update < 5 * 60 * 1_000_000_000 ==> {
                &&& step == UpdateStepView::Finished(None)
                &&& update.stage is Over
            }
        }),
{
}

/// The images in a directory are all its files, in their order, and nothing
/// else.
pub proof fn law_images_are_files(
    a: Seq<DirectoryEntry>,
    b: Seq<DirectoryEntry>,
    entry: DirectoryEntry,
)
    ensures
        files(Seq::empty()) == Seq::<Seq<u8>>::empty(),
        files(a + b) == files(a) + files(b),
        entry.is_file ==> files(seq![entry]) == seq![entry.path@],
        !entry.is_file ==> files(seq![entry]) == Seq::<Seq<u8>>::empty(),
    decreases b.len(),
{
    let none = Seq::<DirectoryEntry>::empty();
    assert(seq![entry].drop_last() =~= none);
    assert(files(none) =~= Seq::<Seq<u8>>::empty());
    if entry.is_file {
        assert(files(seq![entry]) =~= seq![entry.path@]);
    }
    if b.len() == 0 {
        assert(a + b =~= a);
        assert(files(a) + files(b) =~= files(a));
    } else {
        assert((a + b).drop_last() =~= a + b.drop_last());
        assert((a + b).last() == b.last());
        law_images_are_files(a, b.drop_last(), entry);
        assert(files(a + b) =~= files(a) + files(b));
    }
}

/// An access to a path puts the last image which this path leads to in front of
/// all others, which keep their order. If the path leads to none, nothing is
/// changed.
pub proof fn law_access_moves_one_image(images: Seq<Seq<u8>>, path: Seq<u8>, i: int)
    ensures
        (forall|j: int| 0 <= j < images.len() ==> !paths::same_path(#[trigger] images[j], path))
            ==> after_access(images, path) == images,
        0 <= i < images.len() && paths::same_path(images[i], path) && (forall|j: int|
            i < j < images.len() ==> !paths::same_path(#[trigger] images[j], path))
            ==> after_access(images, path) == seq![images[i]] + images.take(i) + images.skip(i + 1),
{
    if 0 <= i < images.len() && paths::same_path(images[i], path) && (forall|j: int|
        i < j < images.len() ==> !paths::same_path(#[trigger] images[j], path)) {
        assert(is_last_position(images, path, i));
        lemma_access_at(images, path, i);
        assert(seq![images[i]] + images.remove(i) =~= seq![images[i]] + images.take(i)
            + images.skip(i + 1));
    }
}

/// The image which was accessed last is the last one to be removed: as long as
/// there is any other image, that one is removed first.
pub proof fn law_accessed_image_is_removed_last(
    images: Seq<Seq<u8>>,
    path: Seq<u8>,
    available: nat,
    required: nat,
    i: int,
)
    requires
        images.len() > 1,
        0 <= i < images.len(),
        paths::same_path(images[i], path),
        forall|j: int|
            0 <= j < images.len() && j != i ==> !paths::same_path(#[trigger] images[j], path),
        available < required,
    ensures
        space_step(after_access(images, path), available, required) matches SpaceStepView::Remove(
            removed,
        ) && !paths::same_path(removed, path) && images.contains(removed),
{
    law_access_moves_one_image(images, path, i);
    let after = after_access(images, path);
    let k = if i == images.len() - 1 {
        i - 1
    } else {
        images.len() - 1
    };
    assert(after.last() == images[k]);
}

/// Nothing is removed while there is enough space. If there is not, the image at
/// the end is removed, and it fails if and only if there is none.
pub proof fn law_space_steps(images: Seq<Seq<u8>>, available: nat, required: nat)
    ensures
        available >= required ==> space_step(images, available, required) is Enough,
        available < required && images.len() > 0 ==> space_step(images, available, required)
            == SpaceStepView::Remove(images[images.len() - 1]),
        available < required && images.len() == 0 ==> space_step(
            images,
            available,
            required,
        ) is Short,
{
}

} // verus!

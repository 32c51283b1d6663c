//! Known checksums of the ALARM tarball.

use vstd::prelude::*;
use vstd::string::*;

use crate::digest;
use crate::text;

verus! {

/// Maximum number of historic checksums stored.
pub const MAX_CHECKSUMS: usize = 32;

/// The latest of the known checksums.
pub open spec fn latest(known: Seq<Seq<char>>) -> Option<Seq<char>> {
    if known.len() > 0 {
        Some(known[0])
    } else {
        None
    }
}

/// Whether `checksum` is known to belong to an older tarball than the latest.
pub open spec fn outdated(known: Seq<Seq<char>>, checksum: Seq<char>) -> bool {
    latest(known) != Some(checksum) && known.contains(checksum)
}

/// The known checksums after the tarball turned out to have `checksum`.
pub open spec fn recorded(known: Seq<Seq<char>>, checksum: Seq<char>) -> Seq<Seq<char>> {
    if latest(known) == Some(checksum) {
        known
    } else {
        let all = seq![checksum] + known;
        if all.len() <= MAX_CHECKSUMS {
            all
        } else {
            all.take(MAX_CHECKSUMS as int)
        }
    }
}

/// The text in which known checksums are stored: one on each line.
pub open spec fn stored(known: Seq<Seq<char>>) -> Seq<char> {
    text::joined(known, seq!['\n'])
}

/// The checksums in a text which was stored.
pub open spec fn loaded(text: Seq<char>) -> Seq<Seq<char>> {
    text::entries(text, '\n')
}

/// The checksum in the contents of an `.md5` file: what stands before the first
/// space.
pub open spec fn published(response: Seq<char>) -> Option<Seq<char>> {
    text::before_first(response, ' ')
}

/// What is known of a checksum.
#[derive(Copy, Clone, PartialEq, Eq, Structural, Debug)]
pub enum Verdict {
    /// It matches the latest tarball.
    Approved,
    /// It does not match the latest tarball.
    Rejected,
    /// What is published must be downloaded to find out.
    Unknown,
}

/// Known checksums, with the latest one first.
pub struct ChecksumHistory {
    md5sums: Vec<String>,
}

impl View for ChecksumHistory {
    type V = Seq<Seq<char>>;

    closed spec fn view(&self) -> Seq<Seq<char>> {
        text::texts(self.md5sums@)
    }
}

impl ChecksumHistory {
    /// The checksums in a text which was stored, or none if there is no such
    /// text.
    pub fn load(cached: Option<&str>) -> (history: Self)
        ensures
            match cached {
                Some(cached) => history@ == loaded(cached@),
                None => history@ == Seq::<Seq<char>>::empty(),
            },
    {
        match cached {
            Some(cached) => ChecksumHistory { md5sums: text::split_entries(cached, '\n') },
            None => {
                let history = ChecksumHistory { md5sums: Vec::new() };
                assert(history@ =~= Seq::<Seq<char>>::empty());
                history
            },
        }
    }

    /// The text in which the checksums are stored.
    pub fn to_text(&self) -> (stored_text: String)
        ensures
            stored_text@ == stored(self@),
    {
        proof {
            reveal_strlit("\n");
            assert("\n"@ =~= seq!['\n']);
        }
        text::join(&self.md5sums, "\n")
    }

    /// The latest known checksum.
    pub fn latest(&self) -> (checksum: Option<String>)
        ensures
            text::optional(checksum) == latest(self@),
    {
        if self.md5sums.len() > 0 {
            Some(self.md5sums[0].clone())
        } else {
            None
        }
    }

    /// Whether `md5sum` is the latest known checksum.
    pub fn is_latest(&self, md5sum: &str) -> (matching: bool)
        ensures
            matching == (latest(self@) == Some(md5sum@)),
    {
        self.md5sums.len() > 0 && text::same_text(self.md5sums[0].as_str(), md5sum)
    }

    /// Whether `md5sum` is known to belong to an older tarball than the latest.
    pub fn is_outdated(&self, md5sum: &str) -> (old: bool)
        ensures
            old == outdated(self@, md5sum@),
    {
        if self.is_latest(md5sum) {
            return false;
        }
        let mut i: usize = 0;
        while i < self.md5sums.len()
            invariant
                i <= self.md5sums@.len(),
                latest(self@) != Some(md5sum@),
                forall|j: int| 0 <= j < i ==> #[trigger] self@[j] != md5sum@,
            decreases self.md5sums@.len() - i,
        {
            if text::same_text(self.md5sums[i].as_str(), md5sum) {
                assert(self@[i as int] == md5sum@);
                return true;
            }
            i += 1;
        }
        false
    }

    /// Take note of the tarball's current checksum.
    ///
    /// Returns whether it has changed.
    pub fn record(&mut self, checksum: &str) -> (changed: bool)
        ensures
            final(self)@ == recorded(old(self)@, checksum@),
            changed == (latest(old(self)@) != Some(checksum@)),
            latest(final(self)@) == Some(checksum@),
    {
        if self.is_latest(checksum) {
            return false;
        }
        let ghost known = self@;
        self.md5sums.insert(0, checksum.to_owned());
        assert(self@ =~= seq![checksum@] + known);
        self.md5sums.truncate(MAX_CHECKSUMS);
        assert(self@ =~= recorded(known, checksum@));
        true
    }
}

/// The checksum in the contents of an `.md5` file.
pub fn published_checksum(response: &str) -> (checksum: Option<String>)
    ensures
        text::optional(checksum) == published(response@),
{
    text::split_off_first(response, ' ')
}

/// No more than the maximum number of checksums are kept after a change.
pub proof fn law_history_is_bounded(known: Seq<Seq<char>>, checksum: Seq<char>)
    requires
        latest(known) != Some(checksum) || known.len() <= MAX_CHECKSUMS,
    ensures
        recorded(known, checksum).len() <= MAX_CHECKSUMS,
{
}

/// The older checksums keep their order behind the new one.
pub proof fn law_older_checksums_follow(known: Seq<Seq<char>>, checksum: Seq<char>, i: int)
    requires
        latest(known) != Some(checksum),
        0 < i < recorded(known, checksum).len(),
    ensures
        recorded(known, checksum)[i] == known[i - 1],
{
}

/// A change of the checksum makes the one before outdated.
pub proof fn law_superseded_checksum_is_outdated(known: Seq<Seq<char>>, checksum: Seq<char>)
    requires
        known.len() > 0,
        latest(known) != Some(checksum),
    ensures
        outdated(recorded(known, checksum), known[0]),
{
    assert(recorded(known, checksum)[1] == known[0]);
}

/// Checksums which were stored are loaded again, if no one of them is empty,
/// spans lines, or begins or ends with white space.
pub proof fn law_stored_checksums_are_loaded(known: Seq<Seq<char>>)
    requires
        forall|i: int| 0 <= i < known.len() ==> text::is_entry(#[trigger] known[i], '\n'),
    ensures
        loaded(stored(known)) == known,
{
    text::law_entries_undo_join(known, '\n');
}

/// An MD5 checksum can be stored and loaded.
pub proof fn law_checksums_can_be_stored(checksum: Seq<char>)
    requires
        digest::is_checksum(checksum),
    ensures
        text::is_entry(checksum, '\n'),
{
    if checksum.contains('\n') {
        let i = choose|i: int| 0 <= i < checksum.len() && checksum[i] == '\n';
        assert(digest::is_hex_digit(checksum[i]));
    }
    assert(digest::is_hex_digit(checksum[0]));
    assert(digest::is_hex_digit(checksum[31]));
    assert(text::trimmed_start(checksum) == checksum);
    assert(text::trimmed_end(checksum) == checksum);
}

/// The latest known checksum is the first one, if there is any.
pub proof fn law_latest_checksum_comes_first(known: Seq<Seq<char>>)
    ensures
        known.len() == 0 ==> latest(known) is None,
        known.len() > 0 ==> latest(known) == Some(known[0]),
{
}

/// A checksum is outdated if and only if it is known from further behind, and
/// does not come first.
pub proof fn law_outdated_checksums_stand_behind(known: Seq<Seq<char>>, checksum: Seq<char>)
    ensures
        outdated(known, checksum) <==> known.len() > 0 && known[0] != checksum && exists|i: int|
            0 < i < known.len() && #[trigger] known[i] == checksum,
{
    if outdated(known, checksum) {
        let i = choose|i: int| 0 <= i < known.len() && known[i] == checksum;
        assert(known[i] == checksum);
    }
}

/// A new checksum is put in front of the others. All of these are kept, except
/// for the oldest one if there would be more than 32. The latest checksum is
/// not put there again.
pub proof fn law_recording_keeps_known_checksums(known: Seq<Seq<char>>, checksum: Seq<char>)
    ensures
        known.len() > 0 && known[0] == checksum ==> recorded(known, checksum) == known,
        known.len() == 0 || known[0] != checksum ==> {
            let after = recorded(known, checksum);
            &&& after.len() == if known.len() < 32 {
                known.len() + 1
            } else {
                32
            }
            &&& after[0] == checksum
            &&& forall|i: int| 0 < i < after.len() ==> #[trigger] after[i] == known[i - 1]
        },
{
}

/// Checksums are stored on lines of their own, in their order.
pub proof fn law_checksums_are_stored_on_lines(
    a: Seq<Seq<char>>,
    b: Seq<Seq<char>>,
    checksum: Seq<char>,
)
    ensures
        stored(Seq::empty()) == Seq::<char>::empty(),
        stored(seq![checksum]) == checksum,
        a.len() > 0 && b.len() > 0 ==> stored(a + b) == stored(a) + "\n"@ + stored(b),
{
    reveal_strlit("\n");
    assert("\n"@ =~= seq!['\n']);
    text::law_join_of_parts(a, b, checksum, seq!['\n']);
}

/// Each line of a stored text holds one checksum, with white space around it
/// ignored. Blank lines hold none.
pub proof fn law_lines_hold_checksums(a: Seq<char>, b: Seq<char>, line: Seq<char>)
    ensures
        loaded(a + "\n"@ + b) == loaded(a) + loaded(b),
        !line.contains('\n') && text::trimmed(line).len() > 0 ==> loaded(line) == seq![
            text::trimmed(line),
        ],
        !line.contains('\n') && text::trimmed(line).len() == 0 ==> loaded(line) == Seq::<
            Seq<char>,
        >::empty(),
{
    reveal_strlit("\n");
    assert(a + "\n"@ + b =~= a.push('\n') + b);
    text::law_entries_of_parts(a, b, line, '\n');
}

/// The published checksum is what stands before a space, whatever follows
/// behind it. Without a space there is none.
pub proof fn law_published_checksum_ends_at_space(
    checksum: Seq<char>,
    rest: Seq<char>,
    response: Seq<char>,
)
    requires
        !checksum.contains(' '),
    ensures
        published(checksum + " "@ + rest) == Some(checksum),
        published(response) is None <==> !response.contains(' '),
{
    reveal_strlit(" ");
    let file = checksum + " "@ + rest;
    text::law_head_ends_at_first_separator(file, ' ');
    text::law_head_ends_at_first_separator(response, ' ');
    assert(file[checksum.len() as int] == ' ');
    let head = published(file)->0;
    if head.len() < checksum.len() {
        assert(checksum[head.len() as int] == file[head.len() as int]);
    } else if head.len() > checksum.len() {
        assert(head[checksum.len() as int] == ' ');
    }
    assert(file.take(checksum.len() as int) =~= checksum);
}

} // verus!

//! Text helpers: comparing, joining, splitting and trimming.

use vstd::prelude::*;
use vstd::string::*;

verus! {

/// The texts of a list of strings.
pub open spec fn texts(list: Seq<String>) -> Seq<Seq<char>> {
    list.map_values(|s: String| s@)
}

/// The text of an optional string.
pub open spec fn optional(string: Option<String>) -> Option<Seq<char>> {
    match string {
        Some(s) => Some(s@),
        None => None,
    }
}

/// All texts of `list` in order, with `sep` between neighbours.
pub open spec fn joined(list: Seq<Seq<char>>, sep: Seq<char>) -> Seq<char>
    decreases list.len(),
{
    if list.len() == 0 {
        Seq::empty()
    } else if list.len() == 1 {
        list[0]
    } else {
        joined(list.drop_last(), sep) + sep + list.last()
    }
}

/// The pieces of `text` between the occurrences of `sep`, including empty ones.
pub open spec fn pieces<A>(text: Seq<A>, sep: A) -> Seq<Seq<A>>
    decreases text.len(),
{
    if text.len() == 0 {
        seq![Seq::empty()]
    } else {
        let before = pieces(text.drop_last(), sep);
        if text.last() == sep {
            before.push(Seq::empty())
        } else {
            before.update(before.len() - 1, before.last().push(text.last()))
        }
    }
}

/// Unicode's `White_Space` property.
pub open spec fn is_white_space(c: char) -> bool {
    ||| '\u{9}' <= c <= '\u{d}'
    ||| c == ' '
    ||| c == '\u{85}'
    ||| c == '\u{a0}'
    ||| c == '\u{1680}'
    ||| '\u{2000}' <= c <= '\u{200a}'
    ||| c == '\u{2028}'
    ||| c == '\u{2029}'
    ||| c == '\u{202f}'
    ||| c == '\u{205f}'
    ||| c == '\u{3000}'
}

/// `text` without its leading white space.
pub open spec fn trimmed_start(text: Seq<char>) -> Seq<char>
    decreases text.len(),
{
    if text.len() > 0 && is_white_space(text[0]) {
        trimmed_start(text.drop_first())
    } else {
        text
    }
}

/// `text` without its trailing white space.
pub open spec fn trimmed_end(text: Seq<char>) -> Seq<char>
    decreases text.len(),
{
    if text.len() > 0 && is_white_space(text.last()) {
        trimmed_end(text.drop_last())
    } else {
        text
    }
}

/// `text` without its leading and trailing white space.
pub open spec fn trimmed(text: Seq<char>) -> Seq<char> {
    trimmed_end(trimmed_start(text))
}

/// How `text` looks when it is quoted for debugging.
pub uninterp spec fn str_debug(text: Seq<char>) -> Seq<char>;

/// How an optional text looks when it is formatted for debugging.
pub open spec fn optional_debug(text: Option<Seq<char>>) -> Seq<char> {
    match text {
        Some(text) => "Some("@ + str_debug(text) + ")"@,
        None => "None"@,
    }
}

/// Formats with the `Debug` implementation of `str`, whose result depends on
/// the text alone.
#[verifier::external_body]
pub(crate) fn debug_text(text: &str) -> (quoted: String)
    ensures
        quoted@ == str_debug(text@),
{
    format!("{:?}", text)
}

/// How an optional string looks when it is formatted for debugging.
pub fn debug_optional(string: &Option<String>) -> (formatted: String)
    ensures
        formatted@ == optional_debug(optional(*string)),
{
    match string {
        Some(s) => "Some(".to_owned().concat(debug_text(s.as_str()).as_str()).concat(")"),
        None => "None".to_owned(),
    }
}

/// A copy of an optional string.
pub fn clone_optional(string: &Option<String>) -> (copy: Option<String>)
    ensures
        optional(copy) == optional(*string),
{
    match string {
        Some(s) => Some(s.clone()),
        None => None,
    }
}

/// Whether two strings hold the same text.
pub fn same_text(a: &str, b: &str) -> (same: bool)
    ensures
        same == (a@ == b@),
{
    let mut left = a.chars();
    let mut right = b.chars();
    let ghost mut done: int = 0;
    loop
        invariant
            0 <= done <= a@.len(),
            done <= b@.len(),
            vstd::std_specs::iter::IteratorSpec::remaining(&left) == a@.skip(done),
            vstd::std_specs::iter::IteratorSpec::remaining(&right) == b@.skip(done),
            a@.take(done) == b@.take(done),
        decreases a@.len() - done,
    {
        match (left.next(), right.next()) {
            (Some(x), Some(y)) => {
                if x != y {
                    assert(a@[done] != b@[done]);
                    return false;
                }
                proof {
                    assert(a@.take(done + 1) =~= a@.take(done).push(x));
                    assert(b@.take(done + 1) =~= b@.take(done).push(y));
                    done = done + 1;
                }
            },
            (None, None) => {
                assert(a@.take(done) =~= a@);
                assert(b@.take(done) =~= b@);
                return true;
            },
            _ => {
                return false;
            },
        }
    }
}

/// Whether two slices hold the same bytes.
pub fn same_bytes(a: &[u8], b: &[u8]) -> (same: bool)
    ensures
        same == (a@ == b@),
{
    if a.len() != b.len() {
        return false;
    }
    let mut i: usize = 0;
    while i < a.len()
        invariant
            i <= a@.len(),
            a@.len() == b@.len(),
            forall|j: int| 0 <= j < i ==> #[trigger] a@[j] == b@[j],
        decreases a@.len() - i,
    {
        if a[i] != b[i] {
            assert(a@ != b@);
            return false;
        }
        i += 1;
    }
    assert(a@ =~= b@);
    true
}

/// Whether `c` is white space.
pub fn white_space(c: char) -> (white: bool)
    ensures
        white == is_white_space(c),
{
    ('\u{9}' <= c && c <= '\u{d}') || c == ' ' || c == '\u{85}' || c == '\u{a0}' || c
        == '\u{1680}' || ('\u{2000}' <= c && c <= '\u{200a}') || c == '\u{2028}' || c == '\u{2029}'
        || c == '\u{202f}' || c == '\u{205f}' || c == '\u{3000}'
}

/// The characters of `text`.
pub fn chars_of(text: &str) -> (chars: Vec<char>)
    ensures
        chars@ == text@,
{
    let mut chars: Vec<char> = Vec::new();
    let mut rest = text.chars();
    loop
        invariant
            chars@.len() <= text@.len(),
            chars@ == text@.take(chars@.len() as int),
            vstd::std_specs::iter::IteratorSpec::remaining(&rest) == text@.skip(chars@.len() as int),
        decreases text@.len() - chars@.len(),
    {
        match rest.next() {
            Some(c) => {
                chars.push(c);
            },
            None => {
                return chars;
            },
        }
    }
}

/// Puts all strings of `list` together, with `sep` between neighbours.
pub fn join(list: &Vec<String>, sep: &str) -> (text: String)
    ensures
        text@ == joined(texts(list@), sep@),
{
    let mut text = String::new();
    let mut i: usize = 0;
    while i < list.len()
        invariant
            i <= list@.len(),
            text@ == joined(texts(list@).take(i as int), sep@),
        decreases list@.len() - i,
    {
        if i > 0 {
            text.append(sep);
        }
        text.append(list[i].as_str());
        assert(texts(list@).take(i + 1).drop_last() =~= texts(list@).take(i as int));
        i += 1;
    }
    assert(texts(list@).take(i as int) =~= texts(list@));
    text
}

/// The part of `text` before the first occurrence of `sep`.
pub open spec fn before_first(text: Seq<char>, sep: char) -> Option<Seq<char>> {
    match text.index_of_first(sep) {
        Some(i) => Some(text.take(i)),
        None => None,
    }
}

/// The part of `text` before the first occurrence of `sep`, if there is one.
pub fn split_off_first(text: &str, sep: char) -> (head: Option<String>)
    ensures
        match head {
            Some(head) => before_first(text@, sep) == Some(head@),
            None => before_first(text@, sep) is None,
        },
{
    let chars = chars_of(text);
    let mut i: usize = 0;
    while i < chars.len()
        invariant
            i <= chars@.len(),
            chars@ == text@,
            forall|j: int| 0 <= j < i ==> #[trigger] text@[j] != sep,
        decreases chars@.len() - i,
    {
        if chars[i] == sep {
            proof {
                text@.index_of_first_ensures(sep);
            }
            return Some(text.substring_char(0, i).to_owned());
        }
        i += 1;
    }
    proof {
        text@.index_of_first_ensures(sep);
    }
    None
}

proof fn lemma_trimmed_bounds(text: Seq<char>, start: int, end: int)
    requires
        0 <= start <= end <= text.len(),
    ensures
        start < end && is_white_space(text[start]) ==> trimmed_start(text.subrange(start, end))
            == trimmed_start(text.subrange(start + 1, end)),
        start < end && is_white_space(text[end - 1]) ==> trimmed_end(text.subrange(start, end))
            == trimmed_end(text.subrange(start, end - 1)),
{
    let part = text.subrange(start, end);
    if start < end {
        assert(part.drop_first() =~= text.subrange(start + 1, end));
        assert(part.drop_last() =~= text.subrange(start, end - 1));
    }
}

/// Trims the part of `text` from position `start` up to `end`.
fn trim_part(text: &str, chars: &Vec<char>, start: usize, end: usize) -> (trimmed_part: String)
    requires
        chars@ == text@,
        start <= end <= text@.len(),
    ensures
        trimmed_part@ == trimmed(text@.subrange(start as int, end as int)),
{
    let mut from: usize = start;
    while from < end && white_space(chars[from])
        invariant
            start <= from <= end <= text@.len(),
            chars@ == text@,
            trimmed_start(text@.subrange(start as int, end as int)) == trimmed_start(
                text@.subrange(from as int, end as int),
            ),
        decreases end - from,
    {
        proof {
            lemma_trimmed_bounds(text@, from as int, end as int);
        }
        from += 1;
    }
    let ghost rest = text@.subrange(from as int, end as int);
    assert(trimmed_start(rest) == rest);
    let mut to: usize = end;
    while from < to && white_space(chars[to - 1])
        invariant
            from <= to <= end <= text@.len(),
            chars@ == text@,
            trimmed_end(rest) == trimmed_end(text@.subrange(from as int, to as int)),
        decreases to - from,
    {
        proof {
            lemma_trimmed_bounds(text@, from as int, to as int);
        }
        to -= 1;
    }
    text.substring_char(from, to).to_owned()
}

/// The pieces of a list after trimming, without those which are then empty.
pub open spec fn entries_of(list: Seq<Seq<char>>) -> Seq<Seq<char>> {
    list.map_values(|piece: Seq<char>| trimmed(piece)).filter(|entry: Seq<char>| entry.len() > 0)
}

/// The trimmed, nonempty pieces of `text` between the occurrences of `sep`.
pub open spec fn entries(text: Seq<char>, sep: char) -> Seq<Seq<char>> {
    entries_of(pieces(text, sep))
}

/// Whether splitting at `sep` and trimming leaves `text` as it is.
pub open spec fn is_entry(text: Seq<char>, sep: char) -> bool {
    &&& text.len() > 0
    &&& !text.contains(sep)
    &&& trimmed(text) == text
}

proof fn lemma_entries_of_push(list: Seq<Seq<char>>, piece: Seq<char>)
    ensures
        entries_of(list.push(piece)) == (if trimmed(piece).len() > 0 {
            entries_of(list).push(trimmed(piece))
        } else {
            entries_of(list)
        }),
{
    reveal(Seq::filter);
    let f = |piece: Seq<char>| trimmed(piece);
    assert(list.push(piece).map_values(f).drop_last() =~= list.map_values(f));
}

proof fn lemma_pieces_nonempty<A>(text: Seq<A>, sep: A)
    ensures
        pieces(text, sep).len() > 0,
    decreases text.len(),
{
    if text.len() > 0 {
        lemma_pieces_nonempty(text.drop_last(), sep);
    }
}

/// Splits `text` at each `sep`, trims the pieces and drops the empty ones.
pub fn split_entries(text: &str, sep: char) -> (list: Vec<String>)
    ensures
        texts(list@) == entries(text@, sep),
{
    let chars = chars_of(text);
    let mut list: Vec<String> = Vec::new();
    let mut start: usize = 0;
    let mut i: usize = 0;
    proof {
        assert(text@.take(0) =~= Seq::<char>::empty());
        assert(pieces(text@.take(0), sep) =~= seq![text@.subrange(0, 0)]);
        assert(pieces(text@.take(0), sep).drop_last() =~= Seq::<Seq<char>>::empty());
        reveal(Seq::filter);
        assert(texts(list@) =~= entries_of(pieces(text@.take(0), sep).drop_last()));
    }
    while i < chars.len()
        invariant
            start <= i <= chars@.len(),
            chars@ == text@,
            pieces(text@.take(i as int), sep).len() > 0,
            pieces(text@.take(i as int), sep).last() == text@.subrange(start as int, i as int),
            texts(list@) == entries_of(pieces(text@.take(i as int), sep).drop_last()),
        decreases chars@.len() - i,
    {
        let ghost before = pieces(text@.take(i as int), sep);
        let ghost after = pieces(text@.take(i + 1), sep);
        assert(text@.take(i + 1).drop_last() =~= text@.take(i as int));
        if chars[i] == sep {
            let entry = trim_part(text, &chars, start, i);
            proof {
                assert(after.drop_last() =~= before);
                assert(before =~= before.drop_last().push(before.last()));
                lemma_entries_of_push(before.drop_last(), before.last());
            }
            let ghost earlier = texts(list@);
            if !entry.as_str().is_empty() {
                list.push(entry);
                assert(texts(list@) =~= earlier.push(entry@));
            }
            start = i + 1;
            assert(text@.subrange(start as int, i + 1) =~= Seq::<char>::empty());
        } else {
            assert(after.drop_last() =~= before.drop_last());
            assert(text@.subrange(start as int, i + 1) =~= text@.subrange(
                start as int,
                i as int,
            ).push(chars[i as int]));
        }
        i += 1;
    }
    let ghost all = pieces(text@, sep);
    let entry = trim_part(text, &chars, start, i);
    proof {
        assert(text@.take(i as int) =~= text@);
        assert(all =~= all.drop_last().push(all.last()));
        lemma_entries_of_push(all.drop_last(), all.last());
    }
    let ghost earlier = texts(list@);
    if !entry.as_str().is_empty() {
        list.push(entry);
        assert(texts(list@) =~= earlier.push(entry@));
    }
    list
}

proof fn lemma_pieces_append(head: Seq<char>, tail: Seq<char>, sep: char)
    requires
        !tail.contains(sep),
    ensures
        pieces(head, sep).len() > 0,
        pieces(head + tail, sep) == pieces(head, sep).update(
            pieces(head, sep).len() - 1,
            pieces(head, sep).last() + tail,
        ),
    decreases tail.len(),
{
    lemma_pieces_nonempty(head, sep);
    let list = pieces(head, sep);
    if tail.len() == 0 {
        assert(head + tail =~= head);
        assert(list.last() + tail =~= list.last());
        assert(list.update(list.len() - 1, list.last()) =~= list);
    } else {
        let rest = tail.drop_last();
        assert(tail.contains(tail.last()));
        assert forall|c: char| rest.contains(c) implies tail.contains(c) by {
            let i = choose|i: int| 0 <= i < rest.len() && rest[i] == c;
            assert(tail[i] == c);
        }
        lemma_pieces_append(head, rest, sep);
        assert((head + tail).drop_last() =~= head + rest);
        assert(tail =~= rest.push(tail.last()));
        assert(list.last() + tail =~= (list.last() + rest).push(tail.last()));
        assert(pieces(head + tail, sep) =~= list.update(list.len() - 1, list.last() + tail));
    }
}

/// Splitting at the separator undoes joining, for a list of texts which do not
/// hold the separator.
pub proof fn law_split_undoes_join(list: Seq<Seq<char>>, sep: char)
    requires
        list.len() > 0,
        forall|i: int| 0 <= i < list.len() ==> !(#[trigger] list[i]).contains(sep),
    ensures
        pieces(joined(list, seq![sep]), sep) == list,
    decreases list.len(),
{
    let none = Seq::<char>::empty();
    if list.len() == 1 {
        lemma_pieces_append(none, list[0], sep);
        assert(none + list[0] =~= list[0]);
        assert(pieces(list[0], sep) =~= list);
    } else {
        let init = list.drop_last();
        law_split_undoes_join(init, sep);
        let head = joined(init, seq![sep]);
        let ended = head + seq![sep];
        assert(ended.drop_last() =~= head);
        assert(pieces(ended, sep) == init.push(none));
        lemma_pieces_append(ended, list.last(), sep);
        assert(none + list.last() =~= list.last());
        assert(pieces(joined(list, seq![sep]), sep) =~= list);
    }
}

/// Joining texts and reading their entries gives the texts back, if each of
/// them is an entry.
pub proof fn law_entries_undo_join(list: Seq<Seq<char>>, sep: char)
    requires
        forall|i: int| 0 <= i < list.len() ==> is_entry(#[trigger] list[i], sep),
    ensures
        entries(joined(list, seq![sep]), sep) == list,
{
    if list.len() == 0 {
        reveal(Seq::filter);
        assert(entries_of(Seq::<Seq<char>>::empty()) =~= list);
        lemma_entries_of_push(Seq::empty(), Seq::empty());
        assert(Seq::<Seq<char>>::empty().push(Seq::empty()) =~= pieces(Seq::empty(), sep));
    } else {
        law_split_undoes_join(list, sep);
        lemma_entries_of_entries(list, sep);
    }
}

proof fn lemma_entries_of_entries(list: Seq<Seq<char>>, sep: char)
    requires
        forall|i: int| 0 <= i < list.len() ==> is_entry(#[trigger] list[i], sep),
    ensures
        entries_of(list) == list,
    decreases list.len(),
{
    if list.len() == 0 {
        reveal(Seq::filter);
        assert(entries_of(list) =~= list);
    } else {
        lemma_entries_of_entries(list.drop_last(), sep);
        lemma_entries_of_push(list.drop_last(), list.last());
        assert(list.drop_last().push(list.last()) =~= list);
    }
}

/// A list of strings holds the text of each string, in the same place, and an
/// optional string holds its text.
pub proof fn law_strings_hold_their_texts(list: Seq<String>, string: String)
    ensures
        texts(list).len() == list.len(),
        forall|i: int| 0 <= i < list.len() ==> #[trigger] texts(list)[i] == list[i]@,
        optional(Some(string)) == Some(string@),
        optional(None::<String>) == None::<Seq<char>>,
{
}

/// Joining a list which is made of two parts gives the joined parts with the
/// separator between them. A single text is joined to itself, and no text to
/// nothing.
pub proof fn law_join_of_parts(
    a: Seq<Seq<char>>,
    b: Seq<Seq<char>>,
    text: Seq<char>,
    sep: Seq<char>,
)
    ensures
        joined(Seq::empty(), sep) == Seq::<char>::empty(),
        joined(seq![text], sep) == text,
        a.len() > 0 && b.len() > 0 ==> joined(a + b, sep) == joined(a, sep) + sep + joined(b, sep),
    decreases b.len(),
{
    if a.len() > 0 && b.len() > 0 {
        assert((a + b).drop_last() =~= a + b.drop_last());
        assert((a + b).last() == b.last());
        if b.len() == 1 {
            assert(a + b.drop_last() =~= a);
        } else {
            law_join_of_parts(a, b.drop_last(), text, sep);
            assert(joined(a + b, sep) =~= joined(a, sep) + sep + joined(b, sep));
        }
    }
}

/// Splitting a text at a separator gives the pieces of what stands before it,
/// and then the pieces of what stands behind it. Without a separator there is
/// a single piece, which is the text.
pub proof fn law_split_of_parts<A>(a: Seq<A>, b: Seq<A>, text: Seq<A>, sep: A)
    ensures
        pieces(a.push(sep) + b, sep) == pieces(a, sep) + pieces(b, sep),
        !text.contains(sep) ==> pieces(text, sep) == seq![text],
{
    lemma_split_of_two(a, b, sep);
    if !text.contains(sep) {
        lemma_split_of_one(text, sep);
    }
}

proof fn lemma_split_of_two<A>(a: Seq<A>, b: Seq<A>, sep: A)
    ensures
        pieces(a.push(sep) + b, sep) == pieces(a, sep) + pieces(b, sep),
    decreases b.len(),
{
    let whole = a.push(sep) + b;
    if b.len() == 0 {
        assert(whole =~= a.push(sep));
        assert(whole.drop_last() =~= a);
        assert(pieces(whole, sep) =~= pieces(a, sep) + pieces(b, sep));
    } else {
        assert(whole.drop_last() =~= a.push(sep) + b.drop_last());
        assert(whole.last() == b.last());
        lemma_split_of_two(a, b.drop_last(), sep);
        lemma_pieces_nonempty(b.drop_last(), sep);
        assert(pieces(whole, sep) =~= pieces(a, sep) + pieces(b, sep));
    }
}

proof fn lemma_split_of_one<A>(text: Seq<A>, sep: A)
    requires
        !text.contains(sep),
    ensures
        pieces(text, sep) == seq![text],
    decreases text.len(),
{
    if text.len() == 0 {
        assert(text =~= Seq::<A>::empty());
    } else {
        let init = text.drop_last();
        assert(text[text.len() - 1] == text.last());
        assert forall|c: A| init.contains(c) implies text.contains(c) by {
            let i = choose|i: int| 0 <= i < init.len() && init[i] == c;
            assert(text[i] == c);
        }
        lemma_split_of_one(init, sep);
        assert(init.push(text.last()) =~= text);
        assert(pieces(text, sep) =~= seq![text]);
    }
}

/// The pieces of a text hold no separator, and joined by it they make up the
/// text.
pub proof fn law_join_undoes_split(text: Seq<char>, sep: char)
    ensures
        joined(pieces(text, sep), seq![sep]) == text,
        pieces(text, sep).len() > 0,
        forall|i: int| 0 <= i < pieces(text, sep).len() ==> !(#[trigger] pieces(text, sep)[i]).contains(sep),
    decreases text.len(),
{
    if text.len() == 0 {
        assert(joined(pieces(text, sep), seq![sep]) =~= text);
    } else {
        let init = text.drop_last();
        let before = pieces(init, sep);
        let after = pieces(text, sep);
        law_join_undoes_split(init, sep);
        assert(init.push(text.last()) =~= text);
        if text.last() == sep {
            assert(after.drop_last() =~= before);
            assert(joined(after, seq![sep]) =~= text);
        } else {
            assert(after.drop_last() =~= before.drop_last());
            assert(joined(after, seq![sep]) =~= text);
            assert forall|i: int| 0 <= i < after.len() implies !(#[trigger] after[i]).contains(sep) by {
                if i == after.len() - 1 {
                    assert(!before[i].contains(sep));
                    if after[i].contains(sep) {
                        let k = choose|k: int| 0 <= k < after[i].len() && after[i][k] == sep;
                        assert(before[i][k] == sep);
                    }
                } else {
                    assert(after[i] == before[i]);
                }
            }
        }
    }
}

/// White space are exactly the characters with these code points.
pub proof fn law_white_space_code_points(c: char)
    ensures
        is_white_space(c) <==> {
            let code = c as u32;
            ||| 0x9 <= code <= 0xd
            ||| code == 0x20
            ||| code == 0x85
            ||| code == 0xa0
            ||| code == 0x1680
            ||| 0x2000 <= code <= 0x200a
            ||| code == 0x2028
            ||| code == 0x2029
            ||| code == 0x202f
            ||| code == 0x205f
            ||| code == 0x3000
        },
{
}

/// Trimming cuts off white space at both ends and nothing else: what is left
/// neither begins nor ends with white space.
pub proof fn law_trimming_cuts_white_space(text: Seq<char>) -> (bounds: (int, int))
    ensures
        0 <= bounds.0 <= bounds.1 <= text.len(),
        trimmed(text) == text.subrange(bounds.0, bounds.1),
        forall|i: int| 0 <= i < bounds.0 ==> is_white_space(#[trigger] text[i]),
        forall|i: int| bounds.1 <= i < text.len() ==> is_white_space(#[trigger] text[i]),
        bounds.0 < bounds.1 ==> !is_white_space(text[bounds.0]) && !is_white_space(
            text[bounds.1 - 1],
        ),
{
    let start = lemma_trimmed_start(text);
    let rest = text.subrange(start, text.len() as int);
    let len = lemma_trimmed_end(rest);
    assert forall|i: int| start + len <= i < text.len() implies is_white_space(#[trigger] text[i]) by {
        assert(rest[i - start] == text[i]);
    }
    assert(rest.subrange(0, len) =~= text.subrange(start, start + len));
    (start, start + len)
}

proof fn lemma_trimmed_start(text: Seq<char>) -> (start: int)
    ensures
        0 <= start <= text.len(),
        trimmed_start(text) == text.subrange(start, text.len() as int),
        forall|i: int| 0 <= i < start ==> is_white_space(#[trigger] text[i]),
        start < text.len() ==> !is_white_space(text[start]),
    decreases text.len(),
{
    if text.len() > 0 && is_white_space(text[0]) {
        let rest = text.drop_first();
        let start = lemma_trimmed_start(rest);
        assert(rest.subrange(start, rest.len() as int) =~= text.subrange(
            start + 1,
            text.len() as int,
        ));
        assert forall|i: int| 0 <= i < start + 1 implies is_white_space(#[trigger] text[i]) by {
            if i > 0 {
                assert(rest[i - 1] == text[i]);
            }
        }
        start + 1
    } else {
        assert(text.subrange(0, text.len() as int) =~= text);
        0
    }
}

proof fn lemma_trimmed_end(text: Seq<char>) -> (end: int)
    ensures
        0 <= end <= text.len(),
        trimmed_end(text) == text.subrange(0, end),
        forall|i: int| end <= i < text.len() ==> is_white_space(#[trigger] text[i]),
        0 < end ==> !is_white_space(text[end - 1]),
    decreases text.len(),
{
    if text.len() > 0 && is_white_space(text.last()) {
        let rest = text.drop_last();
        let end = lemma_trimmed_end(rest);
        assert(rest.subrange(0, end) =~= text.subrange(0, end));
        assert forall|i: int| end <= i < text.len() implies is_white_space(#[trigger] text[i]) by {
            if i < rest.len() {
                assert(rest[i] == text[i]);
            }
        }
        end
    } else {
        assert(text.subrange(0, text.len() as int) =~= text);
        text.len() as int
    }
}

/// The entries of a text which is divided by a separator are those of what
/// stands before it and then those of what stands behind it. A text without
/// separator is, when trimmed, its only entry, unless nothing is left of it.
pub proof fn law_entries_of_parts(a: Seq<char>, b: Seq<char>, text: Seq<char>, sep: char)
    ensures
        entries(a.push(sep) + b, sep) == entries(a, sep) + entries(b, sep),
        !text.contains(sep) && trimmed(text).len() > 0 ==> entries(text, sep) == seq![trimmed(text)],
        !text.contains(sep) && trimmed(text).len() == 0 ==> entries(text, sep) == Seq::<
            Seq<char>,
        >::empty(),
{
    law_split_of_parts(a, b, text, sep);
    let trim = |piece: Seq<char>| trimmed(piece);
    let some = |entry: Seq<char>| entry.len() > 0;
    let head = pieces(a, sep);
    let tail = pieces(b, sep);
    assert((head + tail).map_values(trim) =~= head.map_values(trim) + tail.map_values(trim));
    Seq::filter_distributes_over_add(head.map_values(trim), tail.map_values(trim), some);
    if !text.contains(sep) {
        let none = Seq::<Seq<char>>::empty();
        assert(none.push(text) =~= seq![text]);
        lemma_entries_of_push(none, text);
        reveal(Seq::filter);
        assert(entries_of(none) =~= none);
        assert(none.push(trimmed(text)) =~= seq![trimmed(text)]);
    }
}

/// What stands before the first separator is the part of the text which ends
/// there and holds none. There is such a part if and only if the text holds a
/// separator.
pub proof fn law_head_ends_at_first_separator(text: Seq<char>, sep: char)
    ensures
        before_first(text, sep) is Some <==> text.contains(sep),
        before_first(text, sep) matches Some(head) ==> {
            &&& head.len() < text.len()
            &&& head == text.take(head.len() as int)
            &&& text[head.len() as int] == sep
            &&& !head.contains(sep)
        },
{
    text.index_of_first_ensures(sep);
    if let Some(i) = text.index_of_first(sep) {
        let head = text.take(i);
        if head.contains(sep) {
            let k = choose|k: int| 0 <= k < head.len() && head[k] == sep;
            assert(text[k] == sep);
        }
    }
}

/// An optional text is formatted as such, with its quoted text inside.
pub proof fn law_optional_text_is_told(text: Seq<char>)
    ensures
        optional_debug(None) == "None"@,
        optional_debug(Some(text)) == "Some("@ + str_debug(text) + ")"@,
{
}

} // verus!

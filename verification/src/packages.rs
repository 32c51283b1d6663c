//! Package lists of build requests.

use vstd::prelude::*;
use vstd::string::*;

use crate::digest;
use crate::error::Error;
use crate::order;
use crate::text;

verus! {

/// Whether `c` may stand in a package name.
pub open spec fn is_package_char(c: char) -> bool {
    ||| '0' <= c <= '9'
    ||| 'A' <= c <= 'Z'
    ||| 'a' <= c <= 'z'
    ||| c == '@'
    ||| c == '.'
    ||| c == '_'
    ||| c == '+'
    ||| c == '-'
}

/// Whether `name` is an acceptable package name.
pub open spec fn is_package_name(name: Seq<char>) -> bool {
    &&& name.len() > 0
    &&& name[0] != '.'
    &&& name[0] != '-'
    &&& forall|i: int| 0 <= i < name.len() ==> is_package_char(#[trigger] name[i])
}

/// The position of the first name in `names` which is not acceptable.
pub open spec fn is_first_invalid(names: Seq<Seq<char>>, i: int) -> bool {
    &&& 0 <= i < names.len()
    &&& !is_package_name(names[i])
    &&& forall|j: int| 0 <= j < i ==> is_package_name(#[trigger] names[j])
}

/// The stored form of a package list: all names in ascending order, separated
/// by single spaces.
pub open spec fn combined(names: Seq<Seq<char>>) -> Seq<char> {
    text::joined(order::ascending(names), seq![' '])
}

/// Whether `c` may stand in a package name.
fn package_char(c: char) -> (accepted: bool)
    ensures
        accepted == is_package_char(c),
{
    ('0' <= c && c <= '9') || ('A' <= c && c <= 'Z') || ('a' <= c && c <= 'z') || c == '@' || c
        == '.' || c == '_' || c == '+' || c == '-'
}

/// Whether `name` is an acceptable package name.
pub fn package_name(name: &str) -> (accepted: bool)
    ensures
        accepted == is_package_name(name@),
{
    let chars = text::chars_of(name);
    if chars.len() == 0 || chars[0] == '.' || chars[0] == '-' {
        return false;
    }
    let mut i: usize = 0;
    while i < chars.len()
        invariant
            i <= chars@.len(),
            chars@ == name@,
            forall|j: int| 0 <= j < i ==> is_package_char(#[trigger] name@[j]),
        decreases chars@.len() - i,
    {
        if !package_char(chars[i]) {
            assert(!is_package_char(name@[i as int]));
            return false;
        }
        i += 1;
    }
    true
}

/// Validate a build request's package list.
pub fn validate_packages(packages: &[String]) -> (result: Result<(), Error>)
    ensures
        match result {
            Ok(()) => forall|i: int|
                0 <= i < packages@.len() ==> is_package_name(#[trigger] packages@[i]@),
            Err(Error::InvalidPackage(name)) => exists|i: int|
                #[trigger] is_first_invalid(text::texts(packages@), i) && name@ == packages@[i]@,
            Err(_) => false,
        },
{
    let mut i: usize = 0;
    while i < packages.len()
        invariant
            i <= packages@.len(),
            forall|j: int| 0 <= j < i ==> is_package_name(#[trigger] packages@[j]@),
        decreases packages@.len() - i,
    {
        if !package_name(packages[i].as_str()) {
            assert(is_first_invalid(text::texts(packages@), i as int));
            return Err(Error::InvalidPackage(packages[i].clone()));
        }
        i += 1;
    }
    Ok(())
}

/// The stored form of a package list.
pub fn combine_packages(packages: Vec<String>) -> (text: String)
    ensures
        text@ == combined(text::texts(packages@)),
{
    let mut sorted = packages;
    order::sort_texts(&mut sorted);
    proof {
        order::lemma_ascending_is_unique(text::texts(packages@), text::texts(sorted@));
        reveal_strlit(" ");
        assert(" "@ =~= seq![' ']);
    }
    text::join(&sorted, " ")
}

/// The checksum which identifies a package list, from its stored form.
pub fn packages_checksum(packages: &str) -> (md5sum: String)
    ensures
        md5sum@ == digest::md5_text(vstd::utf8::encode_utf8(packages@)),
        digest::is_checksum(md5sum@),
{
    digest::checksum(packages.as_bytes())
}

/// The order in which packages are listed has no influence on what is stored,
/// nor on the checksum.
pub proof fn law_package_order_is_irrelevant(a: Seq<Seq<char>>, b: Seq<Seq<char>>)
    requires
        a.to_multiset() == b.to_multiset(),
    ensures
        combined(a) == combined(b),
        digest::md5_text(vstd::utf8::encode_utf8(combined(a))) == digest::md5_text(
            vstd::utf8::encode_utf8(combined(b)),
        ),
{
    order::lemma_ascending_ignores_order(a, b);
}

/// Splitting the stored form of acceptable package names at its spaces gives
/// the sorted names back.
pub proof fn law_packages_are_recovered(names: Seq<Seq<char>>)
    requires
        names.len() > 0,
        forall|i: int| 0 <= i < names.len() ==> is_package_name(#[trigger] names[i]),
    ensures
        text::pieces(combined(names), ' ') == order::ascending(names),
        order::ascending(names).to_multiset() == names.to_multiset(),
{
    broadcast use {
        vstd::seq_lib::group_to_multiset_ensures,
        vstd::multiset::group_multiset_axioms,
    };

    let sorted = order::ascending(names);
    order::lemma_text_order_is_total();
    names.lemma_sort_by_ensures(order::text_order());
    vstd::seq_lib::to_multiset_len(sorted);
    vstd::seq_lib::to_multiset_len(names);
    assert forall|i: int| 0 <= i < sorted.len() implies !(#[trigger] sorted[i]).contains(' ') by {
        assert(sorted.contains(sorted[i]));
        assert(names.to_multiset().count(sorted[i]) > 0);
        assert(names.contains(sorted[i]));
        let k = choose|k: int| 0 <= k < names.len() && names[k] == sorted[i];
        assert(is_package_name(names[k]));
        if sorted[i].contains(' ') {
            let j = choose|j: int| 0 <= j < sorted[i].len() && sorted[i][j] == ' ';
            assert(is_package_char(names[k][j]));
        }
    }
    text::law_split_undoes_join(sorted, ' ');
}

/// A package name is acceptable if and only if there is something of it, it
/// begins neither with a dot nor with a hyphen, and it is made of ASCII letters
/// and digits and of `@`, `.`, `_`, `+` and `-`.
pub proof fn law_acceptable_package_names(name: Seq<char>)
    ensures
        is_package_name(name) <==> {
            &&& name.len() > 0
            &&& name.first() != '.' && name.first() != '-'
            &&& forall|i: int|
                0 <= i < name.len() ==> {
                    let code = #[trigger] name[i] as u32;
                    ||| 48 <= code <= 57
                    ||| 65 <= code <= 90
                    ||| 97 <= code <= 122
                    ||| "@._+-"@.contains(name[i])
                }
        },
{
    assert forall|i: int| 0 <= i < name.len() implies is_package_char(#[trigger] name[i]) == {
        let code = name[i] as u32;
        ||| 48 <= code <= 57
        ||| 65 <= code <= 90
        ||| 97 <= code <= 122
        ||| "@._+-"@.contains(name[i])
    } by {
        lemma_package_char(name[i]);
    }
}

proof fn lemma_package_char(c: char)
    ensures
        is_package_char(c) <==> {
            let code = c as u32;
            ||| 48 <= code <= 57
            ||| 65 <= code <= 90
            ||| 97 <= code <= 122
            ||| "@._+-"@.contains(c)
        },
{
    reveal_strlit("@._+-");
    let special = "@._+-"@;
    assert(special.contains(special[0]));
    assert(special.contains(special[1]));
    assert(special.contains(special[2]));
    assert(special.contains(special[3]));
    assert(special.contains(special[4]));
}

/// The name which is refused is not acceptable, and all names before it are. If
/// there is none, all names are acceptable.
pub proof fn law_first_unacceptable_name_is_refused(names: Seq<Seq<char>>, i: int)
    ensures
        is_first_invalid(names, i) <==> {
            &&& 0 <= i < names.len()
            &&& !is_package_name(names[i])
            &&& forall|j: int| 0 <= j < i ==> is_package_name(#[trigger] names[j])
        },
        (forall|k: int| !is_first_invalid(names, k)) ==> forall|j: int|
            0 <= j < names.len() ==> is_package_name(#[trigger] names[j]),
{
    if forall|k: int| !is_first_invalid(names, k) {
        assert forall|j: int| 0 <= j < names.len() implies is_package_name(#[trigger] names[j]) by {
            lemma_acceptable_up_to(names, j);
        }
    }
}

proof fn lemma_acceptable_up_to(names: Seq<Seq<char>>, end: int)
    requires
        forall|k: int| !is_first_invalid(names, k),
        0 <= end < names.len(),
    ensures
        forall|j: int| 0 <= j <= end ==> is_package_name(#[trigger] names[j]),
    decreases end,
{
    if end > 0 {
        lemma_acceptable_up_to(names, end - 1);
    }
    assert(!is_first_invalid(names, end));
}

/// The stored form of a package list grows by a space and the name, for each
/// name which comes behind all others. A single name is stored as it is, and no
/// name as nothing.
pub proof fn law_stored_packages_hold_all_names(names: Seq<Seq<char>>, name: Seq<char>)
    requires
        forall|i: int, j: int|
            0 <= i < j < names.len() ==> order::text_le(#[trigger] names[i], #[trigger] names[j]),
        forall|i: int| 0 <= i < names.len() ==> order::text_le(#[trigger] names[i], name),
    ensures
        names.len() > 0 ==> combined(names.push(name)) == combined(names) + " "@ + name,
        names.len() == 0 ==> combined(names.push(name)) == name,
        combined(Seq::empty()) == Seq::<char>::empty(),
{
    lemma_sorted_stay(names);
    lemma_sorted_stay(names.push(name));
    lemma_sorted_stay(Seq::empty());
    reveal_strlit(" ");
    assert(" "@ =~= seq![' ']);
    text::law_join_of_parts(names, seq![name], name, seq![' ']);
    assert(names + seq![name] =~= names.push(name));
}

proof fn lemma_sorted_stay(names: Seq<Seq<char>>)
    requires
        forall|i: int, j: int|
            0 <= i < j < names.len() ==> order::text_le(#[trigger] names[i], #[trigger] names[j]),
    ensures
        order::ascending(names) == names,
{
    order::lemma_ascending_is_unique(names, names);
}

} // verus!

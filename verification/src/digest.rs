//! MD5 checksums.

use vstd::prelude::*;

verus! {

/// An MD5 computation in progress.
#[verifier::external_type_specification]
#[verifier::external_body]
pub struct ExContext(md5::Context);

/// The bytes that an MD5 computation has taken in so far.
pub uninterp spec fn consumed(context: md5::Context) -> Seq<u8>;

/// The MD5 digest of `bytes`.
pub uninterp spec fn md5_digest(bytes: Seq<u8>) -> Seq<u8>;

/// The lower case hexadecimal digit for `value`.
pub open spec fn hex_digit(value: int) -> char {
    if value < 10 {
        (value + '0' as int) as char
    } else {
        (value - 10 + 'a' as int) as char
    }
}

/// Two hexadecimal digits for each byte, the higher half first.
pub open spec fn lower_hex(bytes: Seq<u8>) -> Seq<char> {
    Seq::new(
        2 * bytes.len(),
        |i: int|
            if i % 2 == 0 {
                hex_digit(bytes[i / 2] as int / 16)
            } else {
                hex_digit(bytes[i / 2] as int % 16)
            },
    )
}

/// The textual MD5 checksum of `bytes`.
pub open spec fn md5_text(bytes: Seq<u8>) -> Seq<char> {
    lower_hex(md5_digest(bytes))
}

/// Whether `c` is a lower case hexadecimal digit.
pub open spec fn is_hex_digit(c: char) -> bool {
    '0' <= c <= '9' || 'a' <= c <= 'f'
}

/// Whether `text` has the form of an MD5 checksum.
pub open spec fn is_checksum(text: Seq<char>) -> bool {
    text.len() == 32 && forall|i: int| 0 <= i < text.len() ==> is_hex_digit(#[trigger] text[i])
}

/// Calls `md5::Context::new`, which starts with no bytes taken in.
#[verifier::external_body]
fn context_new() -> (context: md5::Context)
    ensures
        consumed(context) == Seq::<u8>::empty(),
{
    md5::Context::new()
}

/// Calls `md5::Context::consume`, which takes in all of `data` after what was
/// taken in before.
#[verifier::external_body]
fn context_consume(context: &mut md5::Context, data: &[u8])
    ensures
        consumed(*final(context)) == consumed(*old(context)) + data@,
{
    context.consume(data);
}

/// Calls `md5::Context::compute`. Its digest depends on nothing but the bytes
/// taken in.
#[verifier::external_body]
fn context_compute(context: md5::Context) -> (digest: [u8; 16])
    ensures
        digest@ == md5_digest(consumed(context)),
{
    context.compute().0
}

/// Formats an `md5::Digest` with its `LowerHex` implementation, which writes
/// two lower case hexadecimal digits for each byte.
#[verifier::external_body]
fn digest_text(digest: [u8; 16]) -> (text: String)
    ensures
        text@ == lower_hex(digest@),
{
    format!("{:x}", md5::Digest(digest))
}

/// The hexadecimal form of a digest has the form of an MD5 checksum.
pub proof fn lemma_lower_hex_is_checksum(digest: Seq<u8>)
    requires
        digest.len() == 16,
    ensures
        is_checksum(lower_hex(digest)),
{
    let text = lower_hex(digest);
    assert forall|i: int| 0 <= i < text.len() implies is_hex_digit(#[trigger] text[i]) by {
        let byte = digest[i / 2];
    }
}

/// MD5 checksum of data which arrives in chunks.
pub struct Hasher {
    context: md5::Context,
}

impl View for Hasher {
    type V = Seq<u8>;

    /// The bytes taken in so far.
    closed spec fn view(&self) -> Seq<u8> {
        consumed(self.context)
    }
}

impl Hasher {
    /// Starts with no data.
    pub fn new() -> (hasher: Self)
        ensures
            hasher@ == Seq::<u8>::empty(),
    {
        Hasher { context: context_new() }
    }

    /// Takes in the next chunk of data.
    pub fn consume(&mut self, chunk: &[u8])
        ensures
            final(self)@ == old(self)@ + chunk@,
    {
        context_consume(&mut self.context, chunk);
    }

    /// The textual checksum of all data.
    pub fn compute(self) -> (checksum: String)
        ensures
            checksum@ == md5_text(self@),
            is_checksum(checksum@),
    {
        let digest = context_compute(self.context);
        proof {
            lemma_lower_hex_is_checksum(digest@);
        }
        digest_text(digest)
    }
}

/// The textual checksum of `data`.
pub fn checksum(data: &[u8]) -> (checksum: String)
    ensures
        checksum@ == md5_text(data@),
        is_checksum(checksum@),
{
    let mut hasher = Hasher::new();
    hasher.consume(data);
    assert(hasher@ =~= data@);
    hasher.compute()
}

/// The digits of a byte sequence tell both halves of each byte, in the order of
/// the bytes and the higher half first, and nothing else.
pub proof fn law_digits_tell_bytes(bytes: Seq<u8>, i: int)
    requires
        0 <= i < bytes.len(),
    ensures
        lower_hex(bytes).len() == 2 * bytes.len(),
        lower_hex(bytes)[2 * i] == "0123456789abcdef"@[bytes[i] as int / 16],
        lower_hex(bytes)[2 * i + 1] == "0123456789abcdef"@[bytes[i] as int % 16],
{
    reveal_strlit("0123456789abcdef");
    assert forall|v: int| 0 <= v < 16 implies #[trigger] hex_digit(v) == "0123456789abcdef"@[v] by {
    }
    assert((2 * i) / 2 == i && (2 * i + 1) / 2 == i);
    assert((2 * i) % 2 == 0 && (2 * i + 1) % 2 == 1);
    let byte = bytes[i] as int;
    assert(hex_digit(byte / 16) == "0123456789abcdef"@[byte / 16]);
    assert(hex_digit(byte % 16) == "0123456789abcdef"@[byte % 16]);
}

/// The textual checksum of some data tells the bytes of its digest.
pub proof fn law_checksum_tells_digest(data: Seq<u8>, i: int)
    requires
        0 <= i < md5_digest(data).len(),
    ensures
        md5_text(data).len() == 2 * md5_digest(data).len(),
        md5_text(data)[2 * i] == "0123456789abcdef"@[md5_digest(data)[i] as int / 16],
        md5_text(data)[2 * i + 1] == "0123456789abcdef"@[md5_digest(data)[i] as int % 16],
{
    law_digits_tell_bytes(md5_digest(data), i);
}

/// A checksum consists of exactly as many digits as a digest needs, each of
/// which is in lower case.
pub proof fn law_checksum_form(text: Seq<char>)
    ensures
        is_checksum(text) <==> text.len() == 32 && forall|i: int|
            0 <= i < text.len() ==> "0123456789abcdef"@.contains(#[trigger] text[i]),
{
    reveal_strlit("0123456789abcdef");
    let digits = "0123456789abcdef"@;
    assert forall|c: char| is_hex_digit(c) implies #[trigger] digits.contains(c) by {
        let v = if c <= '9' {
            c as int - '0' as int
        } else {
            c as int - 'a' as int + 10
        };
        assert(digits[v] == c);
    }
    assert forall|c: char| #[trigger] digits.contains(c) implies is_hex_digit(c) by {
        let v = choose|v: int| 0 <= v < digits.len() && digits[v] == c;
    }
    if is_checksum(text) {
        assert forall|i: int| 0 <= i < text.len() implies digits.contains(#[trigger] text[i]) by {
            assert(is_hex_digit(text[i]));
        }
    }
}

} // verus!

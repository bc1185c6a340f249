use sha2::Digest;
use vstd::prelude::*;

verus! {

/// The SHA-256 digest of a manifest's text. The digest is a fixed function
/// of the input alone; its value is left unstated, since spelling the
/// algorithm out here would be a page of arithmetic nothing could check.
pub uninterp spec fn sha256_of(content: Seq<char>) -> Seq<u8>;

/// Relies on sha2's Sha256 (via the digest crate's `Digest::digest`): a
/// 32-byte digest computed from the input bytes alone, with no dependence on
/// file metadata, time or machine.
#[verifier::external_body]
fn sha256_digest(content: &str) -> (r: Vec<u8>)
    ensures
        r@ == sha256_of(content@),
        r@.len() == 32,
{
    sha2::Sha256::digest(content.as_bytes()).to_vec()
}

/// The lowercase hex digit for a value below sixteen.
pub open spec fn hex_digit_spec(n: u8) -> char
    recommends
        n < 16,
{
    if n == 0 {
        '0'
    } else if n == 1 {
        '1'
    } else if n == 2 {
        '2'
    } else if n == 3 {
        '3'
    } else if n == 4 {
        '4'
    } else if n == 5 {
        '5'
    } else if n == 6 {
        '6'
    } else if n == 7 {
        '7'
    } else if n == 8 {
        '8'
    } else if n == 9 {
        '9'
    } else if n == 10 {
        'a'
    } else if n == 11 {
        'b'
    } else if n == 12 {
        'c'
    } else if n == 13 {
        'd'
    } else if n == 14 {
        'e'
    } else {
        'f'
    }
}

/// The two hex digits of one byte, high nibble first.
pub open spec fn hex_pair(x: u8) -> Seq<char> {
    seq![hex_digit_spec(x / 16), hex_digit_spec(x % 16)]
}

/// The lowercase hex rendering of a byte sequence.
pub open spec fn hex_of(b: Seq<u8>) -> Seq<char>
    decreases b.len(),
{
    if b.len() == 0 {
        Seq::<char>::empty()
    } else {
        hex_of(b.drop_last()) + hex_pair(b.last())
    }
}

pub proof fn lemma_hex_of_len(b: Seq<u8>)
    ensures
        hex_of(b).len() == 2 * b.len(),
    decreases b.len(),
{
    if b.len() > 0 {
        lemma_hex_of_len(b.drop_last());
    }
}

/// Relies on String::push: appends exactly the one character.
#[verifier::external_body]
pub(crate) fn push_char(s: &mut String, c: char)
    ensures
        final(s)@ == old(s)@.push(c),
{
    s.push(c);
}

/// The hex digit for a nibble.
fn hex_digit(n: u8) -> (r: char)
    requires
        n < 16,
    ensures
        r == hex_digit_spec(n),
{
    if n == 0 {
        '0'
    } else if n == 1 {
        '1'
    } else if n == 2 {
        '2'
    } else if n == 3 {
        '3'
    } else if n == 4 {
        '4'
    } else if n == 5 {
        '5'
    } else if n == 6 {
        '6'
    } else if n == 7 {
        '7'
    } else if n == 8 {
        '8'
    } else if n == 9 {
        '9'
    } else if n == 10 {
        'a'
    } else if n == 11 {
        'b'
    } else if n == 12 {
        'c'
    } else if n == 13 {
        'd'
    } else if n == 14 {
        'e'
    } else {
        'f'
    }
}

/// Renders a byte sequence as lowercase hex, two digits per byte.
pub fn to_hex(bytes: &Vec<u8>) -> (r: String)
    ensures
        r@ == hex_of(bytes@),
        r@.len() == 2 * bytes@.len(),
{
    let mut out = String::new();
    let mut i: usize = 0;
    while i < bytes.len()
        invariant
            0 <= i <= bytes.len(),
            out@ == hex_of(bytes@.take(i as int)),
        decreases bytes.len() - i,
    {
        let b = bytes[i];
        push_char(&mut out, hex_digit(b / 16));
        push_char(&mut out, hex_digit(b % 16));
        proof {
            assert(bytes@.take(i + 1).drop_last() =~= bytes@.take(i as int));
            assert(bytes@.take(i + 1).last() == bytes@[i as int]);
            assert(out@ =~= hex_of(bytes@.take(i + 1)));
        }
        i += 1;
    }
    proof {
        assert(bytes@.take(bytes@.len() as int) =~= bytes@);
        lemma_hex_of_len(bytes@);
    }
    out
}

/// The content identity of a manifest: the lowercase hex SHA-256 of its
/// text. It detects manifest edits and takes no part in install or purge
/// decisions; it is never a secret or a security boundary.
pub open spec fn content_hash_spec(content: Seq<char>) -> Seq<char> {
    hex_of(sha256_of(content))
}

/// Computes the content identity of one manifest's text: 64 lowercase hex
/// characters, a function of the text alone.
pub fn content_hash(content: &str) -> (r: String)
    ensures
        r@ == content_hash_spec(content@),
        r@.len() == 64,
{
    let digest = sha256_digest(content);
    to_hex(&digest)
}

/// Law: the content hash is deterministic. Two manifests with the same text
/// have the same hash, on every run and every machine; the hash depends on
/// nothing besides the text.
pub proof fn lemma_hash_deterministic(a: Seq<char>, b: Seq<char>)
    requires
        a == b,
    ensures
        content_hash_spec(a) == content_hash_spec(b),
{
}

} // verus!

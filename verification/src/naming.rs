//! System names: short, portable names for users and groups, derived from full names.

use crate::text::{cat3, cat4, chars_of, decimal, decimal_text, law_decimal_is_injective, text_of};
use sha2::Digest;
use vstd::prelude::*;

verus! {

/// What every system name begins with.
pub const PREFIX: &'static str = "doug-";

/// How many digits of a hash go into a system name.
pub const HASH_HEX_LEN: usize = 8;

/// The longest system name.
pub const MAX_SYSTEM_NAME_LENGTH: usize = 32;

/// How much of a full name goes into its system name.
pub const NORMALIZED_LEN: usize = 18;

/// The SHA-256 digest of some bytes.
pub uninterp spec fn sha256_of(data: Seq<u8>) -> Seq<u8>;

/// `Sha256::digest` of the sha2 crate: 32 bytes that depend on the data alone.
#[verifier::external_body]
fn sha256(data: &[u8]) -> (r: Vec<u8>)
    ensures
        r@ == sha256_of(data@),
        r@.len() == 32,
{
    sha2::Sha256::digest(data).to_vec()
}

/// A character as it may stand in a system name: small letters, digits, `-` and `_` stay, capital
/// letters become small, and everything else becomes `-`.
pub open spec fn normal_char(c: char) -> char {
    if ('a' <= c && c <= 'z') || ('0' <= c && c <= '9') || c == '-' || c == '_' {
        c
    } else if 'A' <= c && c <= 'Z' {
        lower(c)
    } else {
        '-'
    }
}

/// The small letter for a capital one.
pub open spec fn lower(c: char) -> char {
    (c as u32 + 32) as char
}

/// Whether a character may stand in a system name.
pub open spec fn is_system_char(c: char) -> bool {
    ('a' <= c && c <= 'z') || ('0' <= c && c <= '9') || c == '-' || c == '_'
}

/// A text with every character made fit for a system name.
pub open spec fn normalized(s: Seq<char>) -> Seq<char> {
    s.map_values(|c: char| normal_char(c))
}

pub(crate) fn lower_char(c: char) -> (r: char)
    requires
        'A' <= c && c <= 'Z',
    ensures
        r == lower(c),
{
    (c as u8 + 32) as char
}

fn normalize_char(c: char) -> (r: char)
    ensures
        r == normal_char(c),
{
    if ('a' <= c && c <= 'z') || ('0' <= c && c <= '9') || c == '-' || c == '_' {
        c
    } else if 'A' <= c && c <= 'Z' {
        lower_char(c)
    } else {
        '-'
    }
}

/// Makes every character of a text fit for a system name.
pub fn normalize(name: &str) -> (r: String)
    ensures
        r@ == normalized(name@),
{
    let mut out: String = String::new();
    for c in iter: name.chars()
        invariant
            iter.seq() == name@,
            out@ == normalized(name@.take(iter.index() as int)),
    {
        out.push(normalize_char(c));
        assert(out@ =~= normalized(name@.take(iter.index() as int + 1)));
    }
    assert(name@.take(name@.len() as int) =~= name@);
    out
}

/// The hexadecimal digit for a number below sixteen.
pub open spec fn hex_digit(n: nat) -> char {
    if n < 10 {
        ('0' as u32 + n) as char
    } else {
        ('a' as u32 + n - 10) as char
    }
}

/// Two hexadecimal digits for each byte.
pub open spec fn hex(bytes: Seq<u8>) -> Seq<char>
    decreases bytes.len(),
{
    if bytes.len() == 0 {
        Seq::empty()
    } else {
        hex(bytes.drop_last()).push(hex_digit((bytes.last() / 16) as nat)).push(
            hex_digit((bytes.last() % 16) as nat),
        )
    }
}

fn hex_char(n: u8) -> (r: char)
    requires
        n < 16,
    ensures
        r == hex_digit(n as nat),
{
    if n < 10 {
        (48 + n) as char
    } else {
        (87 + n) as char
    }
}

/// The first bytes of a digest, as many as go into a system name.
pub open spec fn first_bytes(digest: Seq<u8>) -> Seq<u8> {
    Seq::new((HASH_HEX_LEN / 2) as nat, |i: int| digest[i])
}

/// The part of a digest that goes into a system name: its first bytes, in hexadecimal digits.
pub fn hash_text(digest: &Vec<u8>) -> (r: String)
    requires
        digest@.len() >= 4,
    ensures
        r@ == hex(first_bytes(digest@)),
        r@.len() == HASH_HEX_LEN,
{
    let mut out: String = String::new();
    let mut i: usize = 0;
    assert(digest@.take(0) =~= Seq::<u8>::empty());
    while i < HASH_HEX_LEN / 2
        invariant
            i <= 4,
            digest@.len() >= 4,
            out@ == hex(digest@.take(i as int)),
        decreases 4 - i,
    {
        let byte: u8 = digest[i];
        out.push(hex_char(byte / 16));
        out.push(hex_char(byte % 16));
        assert(digest@.take(i as int + 1).drop_last() =~= digest@.take(i as int));
        i += 1;
    }
    assert(digest@.take(4) =~= first_bytes(digest@));
    proof {
        lemma_hex_shape(first_bytes(digest@));
    }
    out
}

/// The hash that tells apart names that look alike: the first bytes of the SHA-256 digest.
pub open spec fn short_hash_of(name: Seq<char>) -> Seq<char> {
    hex(first_bytes(sha256_of(vstd::utf8::encode_utf8(name))))
}

fn short_hash(name: &str) -> (r: String)
    ensures
        r@ == short_hash_of(name@),
        r@.len() == HASH_HEX_LEN,
{
    hash_text(&sha256(name.as_bytes()))
}

/// The first characters of a text, as many as go into a system name.
pub open spec fn shortened(s: Seq<char>) -> Seq<char> {
    if s.len() <= NORMALIZED_LEN {
        s
    } else {
        s.take(NORMALIZED_LEN as int)
    }
}

/// The system name for a full name with a given hash: the prefix, the start of the name, and the
/// hash.
pub open spec fn hashed_name(full_name: Seq<char>, hash: Seq<char>) -> Seq<char> {
    PREFIX@ + shortened(normalized(full_name)) + "-"@ + hash
}

/// The system name for a full name.
pub open spec fn system_name_of(full_name: Seq<char>) -> Seq<char> {
    hashed_name(full_name, short_hash_of(full_name))
}

/// The system name for a full name with a given hash.
pub fn system_name_with(full_name: &str, hash: &str) -> (r: String)
    ensures
        r@ == hashed_name(full_name@, hash@),
{
    let normal: Vec<char> = chars_of(&normalize(full_name));
    let end: usize = if normal.len() <= NORMALIZED_LEN {
        normal.len()
    } else {
        NORMALIZED_LEN
    };
    let start: String = text_of(&normal, 0, end);
    assert(start@ =~= shortened(normalized(full_name@)));
    cat4(PREFIX, &start, "-", hash)
}

/// Whether a text is fit to be a system name: it begins with the prefix, is not too long, and holds
/// nothing but small letters, digits, `-` and `_`.
pub open spec fn portable(s: Seq<char>) -> bool {
    &&& PREFIX@.is_prefix_of(s)
    &&& s.len() <= MAX_SYSTEM_NAME_LENGTH
    &&& forall|i: int| 0 <= i < s.len() ==> is_system_char(#[trigger] s[i])
}

/// The length of the system name for a full name: fourteen characters for the prefix, the hash and
/// the `-` before it, and one for each character of the full name that goes into it.
pub open spec fn system_name_length(full_name: Seq<char>) -> nat {
    14 + if full_name.len() <= NORMALIZED_LEN {
        full_name.len()
    } else {
        NORMALIZED_LEN as nat
    }
}

/// The system name for a full name.
pub fn derive_system_name(full_name: &str) -> (r: String)
    ensures
        r@ == system_name_of(full_name@),
        portable(r@),
        r@.len() == system_name_length(full_name@),
{
    let hash: String = short_hash(full_name);
    proof {
        lemma_system_names_are_portable(full_name@);
    }
    system_name_with(full_name, &hash)
}

/// The name to try at an attempt: at the first one the name itself, then the name with the number
/// of the attempt.
pub open spec fn salted_of(full_name: Seq<char>, attempt: nat) -> Seq<char> {
    if attempt == 0 {
        full_name
    } else {
        full_name + "#"@ + decimal(attempt)
    }
}

/// The name to try at an attempt.
pub fn salted(full_name: &str, attempt: u32) -> (r: String)
    ensures
        r@ == salted_of(full_name@, attempt as nat),
{
    if attempt == 0 {
        full_name.to_owned()
    } else {
        cat3(full_name, "#", &decimal_text(attempt as u64))
    }
}

proof fn lemma_hex_shape(bytes: Seq<u8>)
    ensures
        hex(bytes).len() == 2 * bytes.len(),
        forall|i: int| 0 <= i < hex(bytes).len() ==> is_system_char(#[trigger] hex(bytes)[i]),
    decreases bytes.len(),
{
    if bytes.len() > 0 {
        lemma_hex_shape(bytes.drop_last());
        let rest = hex(bytes.drop_last());
        let s = hex(bytes);
        assert forall|i: int| 0 <= i < s.len() implies is_system_char(#[trigger] s[i]) by {
            if i < rest.len() {
                assert(s[i] == rest[i]);
            }
        }
    }
}

proof fn lemma_system_names_are_portable(full_name: Seq<char>)
    ensures
        portable(system_name_of(full_name)),
        system_name_of(full_name).len() == system_name_length(full_name),
{
    reveal_strlit("doug-");
    reveal_strlit("-");
    let digest = sha256_of(vstd::utf8::encode_utf8(full_name));
    lemma_hex_shape(first_bytes(digest));
    let s = system_name_of(full_name);
    let middle = shortened(normalized(full_name));
    assert(s.subrange(0, 5) =~= PREFIX@);
    assert forall|i: int| 0 <= i < s.len() implies is_system_char(#[trigger] s[i]) by {
        if i < 5 {
            assert(s[i] == PREFIX@[i]);
        } else if i < 5 + middle.len() {
            assert(s[i] == middle[i - 5]);
            assert(middle[i - 5] == normal_char(full_name[i - 5]));
        } else if i == 5 + middle.len() {
            assert(s[i] == '-');
        } else {
            assert(s[i] == short_hash_of(full_name)[i - 6 - middle.len()]);
        }
    }
}

/// Full names whose starts still differ once they are made fit for a system name get different
/// system names, whatever their hashes are.
pub proof fn law_different_starts_get_different_names(a: Seq<char>, b: Seq<char>)
    requires
        shortened(normalized(a)) != shortened(normalized(b)),
    ensures
        system_name_of(a) != system_name_of(b),
{
    reveal_strlit("doug-");
    reveal_strlit("-");
    let (name_a, name_b) = (system_name_of(a), system_name_of(b));
    let (start_a, start_b) = (shortened(normalized(a)), shortened(normalized(b)));
    if name_a == name_b {
        lemma_system_names_are_portable(a);
        lemma_system_names_are_portable(b);
        assert(start_a.len() == start_b.len());
        assert(start_a =~= name_a.subrange(5, 5 + start_a.len() as int));
        assert(start_b =~= name_b.subrange(5, 5 + start_b.len() as int));
    }
}

/// The first attempt starts from the name itself, and no two attempts start from the same text.
pub proof fn law_attempts_differ(full_name: Seq<char>, a: nat, b: nat)
    ensures
        salted_of(full_name, 0) == full_name,
        salted_of(full_name, a) == salted_of(full_name, b) ==> a == b,
{
    reveal_strlit("#");
    if salted_of(full_name, a) == salted_of(full_name, b) && a != b {
        let n = full_name.len() as int;
        if a == 0 {
            assert(salted_of(full_name, b).len() > n);
        } else if b == 0 {
            assert(salted_of(full_name, a).len() > n);
        } else {
            assert(decimal(a) =~= salted_of(full_name, a).skip(n + 1));
            assert(decimal(b) =~= salted_of(full_name, b).skip(n + 1));
            law_decimal_is_injective(a, b);
        }
    }
}

/// A character that may stand in a system name stays as it is; a capital letter becomes the small
/// one; anything else becomes a `-`.
pub proof fn law_characters_are_made_fit(c: char)
    ensures
        is_system_char(c) <==> normal_char(c) == c,
        'A' <= c && c <= 'Z' ==> normal_char(c) as nat == c as nat - 'A' as nat + 'a' as nat,
        !is_system_char(c) && !('A' <= c && c <= 'Z') ==> normal_char(c) == '-',
        is_system_char(c) <==> (('a' <= c && c <= 'z') || ('0' <= c && c <= '9') || c == '-' || c
            == '_'),
{
}

/// Every character is made fit at its own place, and one text made fit is as long as it was.
pub proof fn law_names_are_made_fit_place_by_place(s: Seq<char>, i: int)
    ensures
        normalized(s).len() == s.len(),
        0 <= i < s.len() ==> normalized(s)[i] == normal_char(s[i]),
        normalized(normalized(s)) == normalized(s),
{
    assert(normalized(normalized(s)) =~= normalized(s));
}

/// A byte is written as two hexadecimal digits, the higher one first, at twice its place.
pub proof fn law_bytes_are_written_in_pairs(bytes: Seq<u8>, i: int)
    requires
        0 <= i < bytes.len(),
    ensures
        hex(bytes).len() == 2 * bytes.len(),
        ({
            let high: int = bytes[i] as int / 16;
            let low: int = bytes[i] as int % 16;
            &&& hex(bytes)[2 * i] as int == (if high < 10 {
                '0' as int + high
            } else {
                'a' as int + high - 10
            })
            &&& hex(bytes)[2 * i + 1] as int == (if low < 10 {
                '0' as int + low
            } else {
                'a' as int + low - 10
            })
        }),
    decreases bytes.len(),
{
    lemma_hex_shape(bytes);
    lemma_hex_shape(bytes.drop_last());
    if i < bytes.len() - 1 {
        law_bytes_are_written_in_pairs(bytes.drop_last(), i);
        assert(hex(bytes)[2 * i] == hex(bytes.drop_last())[2 * i]);
        assert(hex(bytes)[2 * i + 1] == hex(bytes.drop_last())[2 * i + 1]);
    }
}

/// The hash in a system name is that of the first four bytes of the digest of the name's UTF-8
/// bytes.
pub proof fn law_hashes_are_the_start_of_the_digest(name: Seq<char>)
    ensures
        short_hash_of(name).len() == 8,
        short_hash_of(name) == hex(
            seq![
                sha256_of(vstd::utf8::encode_utf8(name))[0],
                sha256_of(vstd::utf8::encode_utf8(name))[1],
                sha256_of(vstd::utf8::encode_utf8(name))[2],
                sha256_of(vstd::utf8::encode_utf8(name))[3],
            ],
        ),
{
    let digest = sha256_of(vstd::utf8::encode_utf8(name));
    assert(first_bytes(digest) =~= seq![digest[0], digest[1], digest[2], digest[3]]);
    lemma_hex_shape(first_bytes(digest));
}

/// A system name is `doug-`, up to eighteen characters of the full name made fit, a `-`, and the
/// hash.
pub proof fn law_system_names_hold_start_and_hash(full_name: Seq<char>, hash: Seq<char>, i: int)
    ensures
        ({
            let kept: int = if full_name.len() <= 18 {
                full_name.len() as int
            } else {
                18
            };
            let name = hashed_name(full_name, hash);
            &&& name.len() == 5 + kept + 1 + hash.len()
            &&& name.take(5) == seq!['d', 'o', 'u', 'g', '-']
            &&& 0 <= i < kept ==> name[5 + i] == normal_char(full_name[i])
            &&& name[5 + kept] == '-'
            &&& name.skip(5 + kept + 1) == hash
        }),
{
    reveal_strlit("doug-");
    reveal_strlit("-");
    let kept: int = if full_name.len() <= 18 {
        full_name.len() as int
    } else {
        18
    };
    let name = hashed_name(full_name, hash);
    assert(name.take(5) =~= seq!['d', 'o', 'u', 'g', '-']);
    assert(name.skip(5 + kept + 1) =~= hash);
}

/// A later attempt starts from the name, a `#` and the number of the attempt.
pub proof fn law_later_attempts_are_numbered(full_name: Seq<char>, attempt: nat)
    requires
        attempt > 0,
    ensures
        salted_of(full_name, attempt).take(full_name.len() as int) == full_name,
        salted_of(full_name, attempt)[full_name.len() as int] == '#',
        salted_of(full_name, attempt).skip(full_name.len() as int + 1) == decimal(attempt),
{
    reveal_strlit("#");
    let n = full_name.len() as int;
    assert(salted_of(full_name, attempt).take(n) =~= full_name);
    assert(salted_of(full_name, attempt).skip(n + 1) =~= decimal(attempt));
}

} // verus!

//! Names made safe for use as credentials.

use crate::naming::{is_system_char, lower, lower_char, normal_char};
use crate::text::{cat2, chars_of};
use vstd::prelude::*;

verus! {

/// How many bytes of a name are kept, so that the prefixed name has at most 32 characters.
pub const KEPT_BYTES: usize = 27;

/// How many bytes a character takes in UTF-8.
pub open spec fn width(c: char) -> nat {
    if (c as u32) < 0x80 {
        1
    } else if (c as u32) < 0x800 {
        2
    } else if (c as u32) < 0x10000 {
        3
    } else {
        4
    }
}

/// How many bytes a text takes in UTF-8.
pub open spec fn total_width(s: Seq<char>) -> nat
    decreases s.len(),
{
    if s.len() == 0 {
        0
    } else {
        total_width(s.drop_last()) + width(s.last())
    }
}

/// Whether the first `k` characters of a text are what stays of it: all of them, or as many as
/// fill the kept bytes exactly.
pub open spec fn keeps(s: Seq<char>, k: int) -> bool {
    &&& 0 <= k <= s.len()
    &&& if total_width(s) <= KEPT_BYTES {
        k == s.len()
    } else {
        total_width(s.take(k)) == KEPT_BYTES
    }
}

/// Whether a text can be cut to the kept bytes without splitting a character.
pub open spec fn can_be_cut(s: Seq<char>) -> bool {
    exists|k: int| keeps(s, k)
}

/// A character as it may begin a credential's name: small letters and `_` stay, capital letters
/// become small, and everything else becomes `-`.
pub open spec fn first_char(c: char) -> char {
    if ('a' <= c && c <= 'z') || c == '_' {
        c
    } else if 'A' <= c && c <= 'Z' {
        lower(c)
    } else {
        '-'
    }
}

/// A text with every character made fit for a credential's name.
pub open spec fn safe(s: Seq<char>) -> Seq<char> {
    Seq::new(s.len(), |i: int| if i == 0 {
        first_char(s[i])
    } else {
        normal_char(s[i])
    })
}

fn char_width(c: char) -> (r: usize)
    ensures
        r == width(c),
{
    let code: u32 = c as u32;
    if code < 0x80 {
        1
    } else if code < 0x800 {
        2
    } else if code < 0x10000 {
        3
    } else {
        4
    }
}

proof fn lemma_width_grows(s: Seq<char>, i: int, j: int)
    requires
        0 <= i <= j <= s.len(),
    ensures
        total_width(s.take(i)) + (j - i) <= total_width(s.take(j)),
    decreases j - i,
{
    if i < j {
        lemma_width_grows(s, i, j - 1);
        assert(s.take(j).drop_last() =~= s.take(j - 1));
    }
}

/// A name made safe for a credential: cut to the kept bytes, with every character made fit, behind
/// `doug-`. The cut must not split a character.
pub fn safe_prefixed_credential_name(name: &str) -> (r: String)
    requires
        can_be_cut(name@),
    ensures
        forall|k: int| #[trigger] keeps(name@, k) ==> r@ == "doug-"@ + safe(name@.take(k)),
{
    let chars: Vec<char> = chars_of(name);
    let mut buffer: String = String::new();
    let mut used: usize = 0;
    let mut i: usize = 0;
    assert(name@.take(0) =~= Seq::<char>::empty());
    assert(safe(name@.take(0)) =~= Seq::<char>::empty());
    while i < chars.len() && used < KEPT_BYTES
        invariant
            i <= chars@.len(),
            chars@ == name@,
            used <= KEPT_BYTES,
            used == total_width(name@.take(i as int)),
            buffer@ == safe(name@.take(i as int)),
            can_be_cut(name@),
        decreases chars@.len() - i,
    {
        let c: char = chars[i];
        assert(name@.take(i as int + 1).drop_last() =~= name@.take(i as int));
        proof {
            let k = choose|k: int| keeps(name@, k);
            assert(name@.take(name@.len() as int) =~= name@);
            if k <= i {
                lemma_width_grows(name@, k, i as int);
                assert(false);
            }
            lemma_width_grows(name@, i as int + 1, k);
        }
        used += char_width(c);
        if i == 0 {
            if ('a' <= c && c <= 'z') || c == '_' {
                buffer.push(c);
            } else if 'A' <= c && c <= 'Z' {
                buffer.push(lower_char(c));
            } else {
                buffer.push('-');
            }
        } else {
            if ('a' <= c && c <= 'z') || ('0' <= c && c <= '9') || c == '-' || c == '_' {
                buffer.push(c);
            } else if 'A' <= c && c <= 'Z' {
                buffer.push(lower_char(c));
            } else {
                buffer.push('-');
            }
        }
        i += 1;
        assert(buffer@ =~= safe(name@.take(i as int)));
    }
    assert forall|k: int| #[trigger] keeps(name@, k) implies k == i by {
        assert(name@.take(name@.len() as int) =~= name@);
        if k < i {
            lemma_width_grows(name@, k, i as int);
        }
        if i < k {
            lemma_width_grows(name@, i as int, k);
        }
    }
    cat2("doug-", &buffer)
}

/// A safe name has at most 32 characters, all of them fit for a credential.
pub proof fn law_safe_names_are_short(name: Seq<char>, k: int)
    requires
        keeps(name, k),
    ensures
        ("doug-"@ + safe(name.take(k))).len() <= 32,
        forall|i: int|
            0 <= i < k ==> is_system_char(#[trigger] safe(name.take(k))[i]),
{
    reveal_strlit("doug-");
    assert(name.take(name.len() as int) =~= name);
    lemma_width_grows(name, 0, k);
    assert forall|i: int| 0 <= i < k implies is_system_char(
        #[trigger] safe(name.take(k))[i],
    ) by {
        assert(safe(name.take(k))[i] == if i == 0 {
            first_char(name[i])
        } else {
            normal_char(name[i])
        });
    }
}

proof fn lemma_width_adds_up(a: Seq<char>, b: Seq<char>)
    ensures
        total_width(a + b) == total_width(a) + total_width(b),
    decreases b.len(),
{
    if b.len() == 0 {
        assert(a + b =~= a);
    } else {
        assert((a + b).drop_last() =~= a + b.drop_last());
        assert((a + b).last() == b.last());
        lemma_width_adds_up(a, b.drop_last());
    }
}

/// The width of a text is the number of its bytes in UTF-8.
pub proof fn law_widths_count_bytes(s: Seq<char>)
    ensures
        total_width(s) == vstd::utf8::encode_utf8(s).len(),
    decreases s.len(),
{
    if s.len() > 0 {
        let rest = s.drop_first();
        law_widths_count_bytes(rest);
        let first = seq![s[0]];
        assert(s =~= first + rest);
        lemma_width_adds_up(first, rest);
        assert(first.drop_last() =~= Seq::<char>::empty());
        assert(total_width(first.drop_last()) == 0);
        assert(total_width(first) == width(s[0]));
        vstd::utf8::char_is_scalar(s[0]);
        assert(vstd::utf8::encode_scalar(s[0] as u32).len() == width(s[0]));
        assert(vstd::utf8::encode_utf8(s) == vstd::utf8::encode_scalar(s[0] as u32)
            + vstd::utf8::encode_utf8(rest));
    }
}

/// What stays of a name is all of it where it has at most 27 bytes, else its start of exactly 27
/// bytes; and there is no other way to cut it.
pub proof fn law_names_are_cut_to_their_bytes(s: Seq<char>, k: int, other: int)
    requires
        keeps(s, k),
    ensures
        vstd::utf8::encode_utf8(s).len() <= 27 ==> k == s.len(),
        vstd::utf8::encode_utf8(s).len() > 27 ==> vstd::utf8::encode_utf8(s.take(k)).len() == 27,
        keeps(s, other) ==> other == k,
{
    law_widths_count_bytes(s);
    law_widths_count_bytes(s.take(k));
    if keeps(s, other) {
        if k < other {
            lemma_width_grows(s, k, other);
        } else if other < k {
            lemma_width_grows(s, other, k);
        }
    }
}

/// A safe name is made place by place, as a system name is, except that it begins with a small
/// letter, a `_` or a `-`: a digit may not begin it.
pub proof fn law_safe_names_begin_with_a_letter(s: Seq<char>, i: int)
    requires
        0 <= i < s.len(),
    ensures
        safe(s).len() == s.len(),
        i > 0 || !('0' <= s[0] && s[0] <= '9') ==> safe(s)[i] == normal_char(s[i]),
        '0' <= s[0] && s[0] <= '9' ==> safe(s)[0] == '-',
{
}

} // verus!

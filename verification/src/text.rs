//! Text: building, comparing, splitting and numbering strings.

use vstd::prelude::*;

verus! {

/// `String::push` of std: appends one character to the end of the string.
pub assume_specification[ String::push ](s: &mut String, c: char)
    ensures
        final(s)@ == old(s)@.push(c),
;

/// Whether a character has the Unicode property `White_Space`.
pub open spec fn white_space(c: char) -> bool {
    ||| '\u{9}' <= c && c <= '\u{d}'
    ||| c == ' '
    ||| c == '\u{85}'
    ||| c == '\u{a0}'
    ||| c == '\u{1680}'
    ||| '\u{2000}' <= c && c <= '\u{200a}'
    ||| c == '\u{2028}'
    ||| c == '\u{2029}'
    ||| c == '\u{202f}'
    ||| c == '\u{205f}'
    ||| c == '\u{3000}'
}

fn is_white_space(c: char) -> (r: bool)
    ensures
        r == white_space(c),
{
    ('\u{9}' <= c && c <= '\u{d}') || c == ' ' || c == '\u{85}' || c == '\u{a0}' || c == '\u{1680}'
        || ('\u{2000}' <= c && c <= '\u{200a}') || c == '\u{2028}' || c == '\u{2029}' || c
        == '\u{202f}' || c == '\u{205f}' || c == '\u{3000}'
}

/// A text in quotes, as it is shown to those who look for faults.
pub uninterp spec fn debug_text_of(text: Seq<char>) -> Seq<char>;

/// `format!` with `{:?}` on a text: what comes of it depends on the text alone. Which characters
/// it escapes, and how, is not stated.
#[verifier::external_body]
fn debug_text(text: &str) -> (r: String)
    ensures
        r@ == debug_text_of(text@),
{
    format!("{:?}", text)
}

/// The texts of a list.
pub open spec fn string_texts(list: Seq<String>) -> Seq<Seq<char>> {
    list.map_values(|s: String| s@)
}

/// Texts one after another, with a comma and a blank between them.
pub open spec fn row(items: Seq<Seq<char>>) -> Seq<char>
    decreases items.len(),
{
    if items.len() == 0 {
        Seq::empty()
    } else if items.len() == 1 {
        items[0]
    } else {
        row(items.drop_last()) + ", "@ + items.last()
    }
}

/// Texts one after another, between brackets.
pub fn bracketed(items: &Vec<String>) -> (r: String)
    ensures
        r@ == "["@ + row(string_texts(items@)) + "]"@,
{
    let ghost all = string_texts(items@);
    let mut inner: String = String::new();
    let mut i: usize = 0;
    assert(all.take(0) =~= Seq::<Seq<char>>::empty());
    while i < items.len()
        invariant
            i <= items@.len(),
            all == string_texts(items@),
            inner@ == row(all.take(i as int)),
        decreases items@.len() - i,
    {
        if i > 0 {
            inner.append(", ");
        }
        inner.append(&items[i]);
        assert(all.take(i as int + 1).drop_last() =~= all.take(i as int));
        assert(all.take(i as int + 1).last() == items@[i as int]@);
        assert(i == 0 ==> inner@ =~= items@[0]@);
        i += 1;
    }
    assert(all.take(all.len() as int) =~= all);
    cat3("[", &inner, "]")
}

/// A list of texts as it is shown to those who look for faults: in quotes, between brackets.
pub open spec fn debug_texts_of(texts: Seq<Seq<char>>) -> Seq<char> {
    "["@ + row(texts.map_values(|text: Seq<char>| debug_text_of(text))) + "]"@
}

/// A list of texts as it is shown to those who look for faults.
pub fn debug_texts(texts: &Vec<String>) -> (r: String)
    ensures
        r@ == debug_texts_of(string_texts(texts@)),
{
    let mut quoted: Vec<String> = Vec::new();
    let mut i: usize = 0;
    while i < texts.len()
        invariant
            i <= texts@.len(),
            quoted@.len() == i,
            forall|j: int| 0 <= j < i ==> (#[trigger] quoted@[j])@ == debug_text_of(texts@[j]@),
        decreases texts@.len() - i,
    {
        quoted.push(debug_text(&texts[i]));
        i += 1;
    }
    assert(string_texts(quoted@) =~= string_texts(texts@).map_values(
        |text: Seq<char>| debug_text_of(text),
    ));
    bracketed(&quoted)
}

/// The two texts joined.
pub fn cat2(a: &str, b: &str) -> (r: String)
    ensures
        r@ == a@ + b@,
{
    let mut s: String = a.to_owned();
    s.append(b);
    s
}

/// The three texts joined.
pub fn cat3(a: &str, b: &str, c: &str) -> (r: String)
    ensures
        r@ == a@ + b@ + c@,
{
    let mut s: String = a.to_owned();
    s.append(b);
    s.append(c);
    s
}

/// The four texts joined.
pub fn cat4(a: &str, b: &str, c: &str, d: &str) -> (r: String)
    ensures
        r@ == a@ + b@ + c@ + d@,
{
    let mut s: String = a.to_owned();
    s.append(b);
    s.append(c);
    s.append(d);
    s
}

/// The five texts joined.
pub fn cat5(a: &str, b: &str, c: &str, d: &str, e: &str) -> (r: String)
    ensures
        r@ == a@ + b@ + c@ + d@ + e@,
{
    let mut s: String = a.to_owned();
    s.append(b);
    s.append(c);
    s.append(d);
    s.append(e);
    s
}

/// The seven texts joined.
pub fn cat7(a: &str, b: &str, c: &str, d: &str, e: &str, f: &str, g: &str) -> (r: String)
    ensures
        r@ == a@ + b@ + c@ + d@ + e@ + f@ + g@,
{
    let mut s: String = a.to_owned();
    s.append(b);
    s.append(c);
    s.append(d);
    s.append(e);
    s.append(f);
    s.append(g);
    s
}

/// Whether two texts hold the same characters.
pub fn same_text(a: &str, b: &str) -> (r: bool)
    ensures
        r == (a@ == b@),
{
    a.to_owned() == b.to_owned()
}

/// Whether a text stands before another one in order: where the two part, it has the smaller
/// character or is at its end.
pub open spec fn precedes(a: Seq<char>, b: Seq<char>) -> bool
    decreases a.len(),
{
    if b.len() == 0 {
        false
    } else if a.len() == 0 {
        true
    } else if a[0] != b[0] {
        a[0] < b[0]
    } else {
        precedes(a.skip(1), b.skip(1))
    }
}

/// No text stands before itself.
pub proof fn lemma_no_text_precedes_itself(a: Seq<char>)
    ensures
        !precedes(a, a),
    decreases a.len(),
{
    if a.len() > 0 {
        lemma_no_text_precedes_itself(a.skip(1));
    }
}

/// What stands before a text stands before all that come behind it.
pub proof fn lemma_precedence_carries_on(a: Seq<char>, b: Seq<char>, c: Seq<char>)
    requires
        precedes(a, b),
        precedes(b, c),
    ensures
        precedes(a, c),
    decreases a.len(),
{
    if a.len() > 0 && a[0] == b[0] && b[0] == c[0] {
        lemma_precedence_carries_on(a.skip(1), b.skip(1), c.skip(1));
    }
}

/// Of two different texts one stands before the other.
pub proof fn lemma_one_text_precedes(a: Seq<char>, b: Seq<char>)
    requires
        a != b,
    ensures
        precedes(a, b) || precedes(b, a),
    decreases a.len(),
{
    if a.len() == 0 || b.len() == 0 {
        if a.len() == b.len() {
            assert(a =~= b);
        }
    } else if a[0] == b[0] {
        if a.skip(1) == b.skip(1) {
            assert(a =~= seq![a[0]] + a.skip(1));
            assert(b =~= seq![b[0]] + b.skip(1));
        }
        lemma_one_text_precedes(a.skip(1), b.skip(1));
    }
}

/// The characters of a text.
pub fn chars_of(s: &str) -> (r: Vec<char>)
    ensures
        r@ == s@,
{
    let mut out: Vec<char> = Vec::new();
    for c in iter: s.chars()
        invariant
            iter.seq() == s@,
            out@ == s@.take(iter.index() as int),
    {
        out.push(c);
        assert(s@.take(iter.index() as int).push(c) =~= s@.take(iter.index() as int + 1));
    }
    assert(s@.take(s@.len() as int) =~= s@);
    out
}

/// Whether a text stands before another one in order.
pub fn comes_before(a: &str, b: &str) -> (r: bool)
    ensures
        r == precedes(a@, b@),
{
    let left: Vec<char> = chars_of(a);
    let right: Vec<char> = chars_of(b);
    let mut i: usize = 0;
    assert(left@.skip(0) =~= a@);
    assert(right@.skip(0) =~= b@);
    while i < left.len() && i < right.len()
        invariant
            i <= left@.len(),
            i <= right@.len(),
            precedes(a@, b@) == precedes(left@.skip(i as int), right@.skip(i as int)),
        decreases left@.len() - i,
    {
        assert(left@.skip(i as int)[0] == left@[i as int]);
        assert(right@.skip(i as int)[0] == right@[i as int]);
        if left[i] != right[i] {
            return left[i] < right[i];
        }
        assert(left@.skip(i as int).skip(1) =~= left@.skip(i as int + 1));
        assert(right@.skip(i as int).skip(1) =~= right@.skip(i as int + 1));
        i += 1;
    }
    i < right.len()
}

/// The text that holds the characters from `from` up to `to`.
pub fn text_of(chars: &Vec<char>, from: usize, to: usize) -> (r: String)
    requires
        from <= to <= chars@.len(),
    ensures
        r@ == chars@.subrange(from as int, to as int),
{
    let mut out: String = String::new();
    let mut i: usize = from;
    while i < to
        invariant
            from <= i <= to <= chars@.len(),
            out@ == chars@.subrange(from as int, i as int),
        decreases to - i,
    {
        out.push(chars[i]);
        i += 1;
        assert(chars@.subrange(from as int, i as int) =~= chars@.subrange(
            from as int,
            i as int - 1,
        ).push(chars@[i - 1]));
    }
    out
}

/// Whether a list of texts has an entry that holds `wanted`.
pub open spec fn lists(texts: Seq<String>, wanted: Seq<char>) -> bool {
    exists|i: int| 0 <= i < texts.len() && (#[trigger] texts[i])@ == wanted
}

/// Whether a list of texts has the given text.
pub fn has_text(texts: &Vec<String>, wanted: &str) -> (r: bool)
    ensures
        r == lists(texts@, wanted@),
{
    let mut i: usize = 0;
    while i < texts.len()
        invariant
            i <= texts@.len(),
            forall|j: int| 0 <= j < i ==> (#[trigger] texts@[j])@ != wanted@,
        decreases texts@.len() - i,
    {
        if same_text(&texts[i], wanted) {
            return true;
        }
        i += 1;
    }
    false
}

/// What follows a prefix in a text that starts with it.
pub open spec fn stripped(s: Seq<char>, prefix: Seq<char>) -> Option<Seq<char>> {
    if prefix.is_prefix_of(s) {
        Some(s.skip(prefix.len() as int))
    } else {
        None
    }
}

/// The rest of a text behind a prefix, if the text starts with the prefix.
pub fn strip_prefix(s: &str, prefix: &str) -> (r: Option<String>)
    ensures
        r is Some == stripped(s@, prefix@) is Some,
        r matches Some(rest) ==> Some(rest@) == stripped(s@, prefix@),
{
    let chars: Vec<char> = chars_of(s);
    let wanted: Vec<char> = chars_of(prefix);
    if chars.len() < wanted.len() {
        return None;
    }
    let mut i: usize = 0;
    while i < wanted.len()
        invariant
            i <= wanted@.len() <= chars@.len(),
            forall|j: int| 0 <= j < i ==> chars@[j] == wanted@[j],
            chars@ == s@,
            wanted@ == prefix@,
        decreases wanted@.len() - i,
    {
        if chars[i] != wanted[i] {
            assert(!prefix@.is_prefix_of(s@)) by {
                if prefix@.is_prefix_of(s@) {
                    assert(s@.subrange(0, prefix@.len() as int)[i as int] == s@[i as int]);
                }
            }
            return None;
        }
        i += 1;
    }
    assert(prefix@ =~= s@.subrange(0, prefix@.len() as int));
    let rest: String = text_of(&chars, wanted.len(), chars.len());
    assert(rest@ =~= s@.skip(prefix@.len() as int));
    Some(rest)
}

/// The rest of a text before a suffix, if the text ends with the suffix.
pub fn strip_suffix(s: &str, suffix: &str) -> (r: Option<String>)
    ensures
        r is Some == suffix@.is_suffix_of(s@),
        r matches Some(rest) ==> rest@ + suffix@ == s@,
{
    let chars: Vec<char> = chars_of(s);
    let wanted: Vec<char> = chars_of(suffix);
    if chars.len() < wanted.len() {
        return None;
    }
    let start: usize = chars.len() - wanted.len();
    let mut i: usize = 0;
    while i < wanted.len()
        invariant
            i <= wanted@.len() <= chars@.len(),
            start + wanted.len() == chars.len(),
            forall|j: int| 0 <= j < i ==> #[trigger] chars@[start + j] == wanted@[j],
            chars@ == s@,
            wanted@ == suffix@,
        decreases wanted@.len() - i,
    {
        if chars[start + i] != wanted[i] {
            assert(!suffix@.is_suffix_of(s@)) by {
                if suffix@.is_suffix_of(s@) {
                    assert(s@.subrange(start as int, s@.len() as int)[i as int] == s@[start + i]);
                }
            }
            return None;
        }
        i += 1;
    }
    assert(suffix@ =~= s@.subrange(start as int, s@.len() as int)) by {
        assert forall|j: int| 0 <= j < suffix@.len() implies suffix@[j] == s@.subrange(
            start as int,
            s@.len() as int,
        )[j] by {
            assert(chars@[start + j] == wanted@[j]);
        }
    }
    let rest: String = text_of(&chars, 0, start);
    assert(rest@ + suffix@ =~= s@);
    Some(rest)
}

/// The parts of a text before and behind the first place where a character stands.
pub fn split_once(s: &str, c: char) -> (r: Option<(String, String)>)
    ensures
        r is Some == s@.contains(c),
        r matches Some((before, after)) ==> {
            &&& s@ == before@ + seq![c] + after@
            &&& !before@.contains(c)
        },
{
    let chars: Vec<char> = chars_of(s);
    let mut i: usize = 0;
    while i < chars.len()
        invariant
            i <= chars@.len(),
            chars@ == s@,
            forall|j: int| 0 <= j < i ==> s@[j] != c,
        decreases chars@.len() - i,
    {
        if chars[i] == c {
            let before: String = text_of(&chars, 0, i);
            let after: String = text_of(&chars, i + 1, chars.len());
            assert(s@[i as int] == c);
            assert(s@ =~= before@ + seq![c] + after@);
            return Some((before, after));
        }
        i += 1;
    }
    None
}

/// The text without its leading white space.
pub open spec fn trim_start(s: Seq<char>) -> Seq<char>
    decreases s.len(),
{
    if s.len() > 0 && white_space(s[0]) {
        trim_start(s.skip(1))
    } else {
        s
    }
}

/// The text without its trailing white space.
pub open spec fn trim_end(s: Seq<char>) -> Seq<char>
    decreases s.len(),
{
    if s.len() > 0 && white_space(s.last()) {
        trim_end(s.drop_last())
    } else {
        s
    }
}

/// The text without the white space around it.
pub open spec fn trimmed(s: Seq<char>) -> Seq<char> {
    trim_end(trim_start(s))
}

/// The text without the white space around it.
pub fn trim(s: &str) -> (r: String)
    ensures
        r@ == trimmed(s@),
{
    let chars: Vec<char> = chars_of(s);
    let mut from: usize = 0;
    assert(s@.skip(0) =~= s@);
    while from < chars.len() && is_white_space(chars[from])
        invariant
            from <= chars@.len(),
            chars@ == s@,
            trim_start(s@.skip(from as int)) == trim_start(s@),
        decreases chars@.len() - from,
    {
        assert(s@.skip(from as int).skip(1) =~= s@.skip(from as int + 1));
        from += 1;
    }
    let ghost rest = s@.skip(from as int);
    assert(trim_start(s@) == rest);
    let mut to: usize = chars.len();
    assert(s@.subrange(from as int, to as int) =~= rest);
    while from < to && is_white_space(chars[to - 1])
        invariant
            from <= to <= chars@.len(),
            chars@ == s@,
            trim_end(s@.subrange(from as int, to as int)) == trim_end(rest),
        decreases to - from,
    {
        assert(s@.subrange(from as int, to as int).drop_last() =~= s@.subrange(
            from as int,
            to as int - 1,
        ));
        to -= 1;
    }
    text_of(&chars, from, to)
}

proof fn lemma_trim_start(s: Seq<char>)
    ensures
        trim_start(s).len() > 0 ==> !white_space(trim_start(s)[0]),
    decreases s.len(),
{
    if s.len() > 0 && white_space(s[0]) {
        lemma_trim_start(s.skip(1));
    }
}

proof fn lemma_trim_end(s: Seq<char>)
    ensures
        trim_end(s).len() <= s.len(),
        trim_end(s).len() > 0 ==> trim_end(s)[0] == s[0] && !white_space(trim_end(s).last()),
    decreases s.len(),
{
    if s.len() > 0 && white_space(s.last()) {
        lemma_trim_end(s.drop_last());
    }
}

/// Trimming what was trimmed changes nothing.
pub(crate) proof fn lemma_trimming_is_done_once(s: Seq<char>)
    ensures
        trimmed(trimmed(s)) == trimmed(s),
{
    lemma_trim_start(s);
    lemma_trim_end(trim_start(s));
}

/// The decimal digit for a number below ten.
pub open spec fn digit(d: nat) -> char {
    (('0' as u32) + d) as char
}

/// A number written in decimal digits, without leading zeros.
pub open spec fn decimal(n: nat) -> Seq<char>
    decreases n,
{
    if n < 10 {
        seq![digit(n)]
    } else {
        decimal(n / 10).push(digit(n % 10))
    }
}

fn digit_char(d: u64) -> (r: char)
    requires
        d < 10,
    ensures
        r == digit(d as nat),
{
    match d {
        0 => '0',
        1 => '1',
        2 => '2',
        3 => '3',
        4 => '4',
        5 => '5',
        6 => '6',
        7 => '7',
        8 => '8',
        _ => '9',
    }
}

/// The number in decimal.
pub fn decimal_text(n: u64) -> (r: String)
    ensures
        r@ == decimal(n as nat),
    decreases n,
{
    if n < 10 {
        let mut s: String = String::new();
        s.push(digit_char(n));
        assert(s@ =~= seq![digit(n as nat)]);
        s
    } else {
        let mut s: String = decimal_text(n / 10);
        s.push(digit_char(n % 10));
        s
    }
}

/// Whether a character is a decimal digit.
pub open spec fn is_digit(c: char) -> bool {
    '0' <= c && c <= '9'
}

/// The number that a row of decimal digits stands for.
pub open spec fn decimal_value(s: Seq<char>) -> nat
    decreases s.len(),
{
    if s.len() == 0 {
        0
    } else {
        decimal_value(s.drop_last()) * 10 + (s.last() as u32 - '0' as u32) as nat
    }
}

/// Whether a text is a row of one or more decimal digits.
pub open spec fn all_digits(s: Seq<char>) -> bool {
    s.len() > 0 && forall|i: int| 0 <= i < s.len() ==> is_digit(#[trigger] s[i])
}

/// The number that a text stands for, where it is a row of decimal digits whose value fits.
pub open spec fn parsed_decimal(s: Seq<char>) -> Option<u32> {
    if all_digits(s) && decimal_value(s) <= u32::MAX {
        Some(decimal_value(s) as u32)
    } else {
        None
    }
}

proof fn lemma_value_grows(s: Seq<char>, i: int)
    requires
        0 <= i <= s.len(),
        forall|j: int| 0 <= j < s.len() ==> is_digit(#[trigger] s[j]),
    ensures
        decimal_value(s.take(i)) <= decimal_value(s),
    decreases s.len() - i,
{
    if i < s.len() {
        lemma_value_grows(s, i + 1);
        assert(s.take(i + 1).drop_last() =~= s.take(i));
        assert(is_digit(s[i]));
    } else {
        assert(s.take(i) =~= s);
    }
}

/// Reads a row of decimal digits.
pub fn parse_decimal(s: &str) -> (r: Option<u32>)
    ensures
        r == parsed_decimal(s@),
{
    let chars: Vec<char> = chars_of(s);
    if chars.len() == 0 {
        return None;
    }
    let mut i: usize = 0;
    while i < chars.len()
        invariant
            i <= chars@.len(),
            forall|j: int| 0 <= j < i ==> is_digit(#[trigger] chars@[j]),
            chars@ == s@,
        decreases chars@.len() - i,
    {
        if chars[i] < '0' || chars[i] > '9' {
            assert(!is_digit(s@[i as int]));
            return None;
        }
        i += 1;
    }
    let mut value: u32 = 0;
    i = 0;
    while i < chars.len()
        invariant
            i <= chars@.len(),
            forall|j: int| 0 <= j < chars@.len() ==> is_digit(#[trigger] chars@[j]),
            chars@ == s@,
            value == decimal_value(s@.take(i as int)),
        decreases chars@.len() - i,
    {
        let c: char = chars[i];
        assert(is_digit(chars@[i as int]));
        let d: u64 = c as u64 - '0' as u64;
        let wide: u64 = value as u64 * 10 + d;
        assert(s@.take(i as int + 1).drop_last() =~= s@.take(i as int));
        assert(wide == decimal_value(s@.take(i as int + 1)));
        if wide > u32::MAX as u64 {
            proof {
                lemma_value_grows(s@, i as int + 1);
            }
            return None;
        }
        value = wide as u32;
        i += 1;
    }
    assert(s@.take(s@.len() as int) =~= s@);
    Some(value)
}

/// A number that is written in decimal is a row of digits that stands for it.
pub(crate) proof fn lemma_decimal_is_digits(n: nat)
    ensures
        all_digits(decimal(n)),
        decimal_value(decimal(n)) == n,
    decreases n,
{
    if n < 10 {
        let s = decimal(n);
        assert(s.drop_last() =~= Seq::<char>::empty());
        assert(decimal_value(s.drop_last()) == 0);
    } else {
        lemma_decimal_is_digits(n / 10);
        let s = decimal(n);
        assert(s.drop_last() =~= decimal(n / 10));
        assert forall|i: int| 0 <= i < s.len() implies is_digit(#[trigger] s[i]) by {
            if i < s.len() - 1 {
                assert(s[i] == decimal(n / 10)[i]);
            }
        }
    }
}

/// Reading back a number that was written in decimal gives the number.
pub proof fn law_decimal_round_trip(n: u32)
    ensures
        parsed_decimal(decimal(n as nat)) == Some(n),
{
    lemma_decimal_is_digits(n as nat);
}

/// Different numbers are written differently.
pub proof fn law_decimal_is_injective(m: nat, n: nat)
    requires
        decimal(m) == decimal(n),
    ensures
        m == n,
{
    lemma_decimal_is_digits(m);
    lemma_decimal_is_digits(n);
}

/// Trimming takes away white space at both ends and nothing else: what goes is white space, and
/// what stays neither begins nor ends with any.
pub proof fn law_only_white_space_is_trimmed(s: Seq<char>) -> (ends: (Seq<char>, Seq<char>))
    ensures
        s == ends.0 + trimmed(s) + ends.1,
        forall|i: int| 0 <= i < ends.0.len() ==> white_space(#[trigger] ends.0[i]),
        forall|i: int| 0 <= i < ends.1.len() ==> white_space(#[trigger] ends.1[i]),
        trimmed(s).len() > 0 ==> !white_space(trimmed(s)[0]) && !white_space(trimmed(s).last()),
{
    let front = lemma_front_is_white(s);
    let rest = trim_start(s);
    let back = lemma_back_is_white(rest);
    lemma_trim_start(s);
    lemma_trim_end(rest);
    assert(s =~= front + trimmed(s) + back);
    (front, back)
}

proof fn lemma_front_is_white(s: Seq<char>) -> (front: Seq<char>)
    ensures
        s == front + trim_start(s),
        forall|i: int| 0 <= i < front.len() ==> white_space(#[trigger] front[i]),
    decreases s.len(),
{
    if s.len() > 0 && white_space(s[0]) {
        let rest = lemma_front_is_white(s.skip(1));
        let front = seq![s[0]] + rest;
        assert forall|i: int| 0 <= i < front.len() implies white_space(#[trigger] front[i]) by {
            if i > 0 {
                assert(front[i] == rest[i - 1]);
            }
        }
        assert(s =~= front + trim_start(s)) by {
            assert(s =~= seq![s[0]] + s.skip(1));
        }
        front
    } else {
        assert(s =~= Seq::<char>::empty() + s);
        Seq::empty()
    }
}

proof fn lemma_back_is_white(s: Seq<char>) -> (back: Seq<char>)
    ensures
        s == trim_end(s) + back,
        forall|i: int| 0 <= i < back.len() ==> white_space(#[trigger] back[i]),
    decreases s.len(),
{
    if s.len() > 0 && white_space(s.last()) {
        let rest = lemma_back_is_white(s.drop_last());
        let back = rest.push(s.last());
        assert(s =~= trim_end(s) + back) by {
            assert(s =~= s.drop_last().push(s.last()));
        }
        back
    } else {
        assert(s =~= s + Seq::<char>::empty());
        Seq::empty()
    }
}

/// A blank, a tab and the ends of a line are white space; letters, digits and marks that can be
/// seen are not.
pub proof fn law_visible_characters_are_not_white(c: char)
    ensures
        (c as u32) < 0x80 ==> (white_space(c) <==> (c == ' ' || c == '\t' || c == '\n' || c == '\r'
            || c == '\u{b}' || c == '\u{c}')),
{
}

/// Texts in a row stand one behind another with a comma and a blank between any two of them, and
/// with nothing before the first or behind the last.
pub proof fn law_rows_are_joined_by_commas(first: Seq<Seq<char>>, second: Seq<Seq<char>>)
    ensures
        row(seq![]) == Seq::<char>::empty(),
        first.len() == 1 ==> row(first) == first[0],
        first.len() > 0 && second.len() > 0 ==> row(first + second) == row(first) + ", "@ + row(
            second,
        ),
    decreases second.len(),
{
    if first.len() > 0 && second.len() > 0 {
        let all = first + second;
        assert(all.drop_last() =~= first + second.drop_last());
        assert(all.last() == second.last());
        assert(all.len() > 1);
        if second.len() == 1 {
            assert(first + second.drop_last() =~= first);
        } else {
            law_rows_are_joined_by_commas(first, second.drop_last());
            assert(row(all) =~= row(first) + ", "@ + row(second));
        }
    }
}

/// Two texts that agree up to some place are in the order of what stands there: the one that has
/// ended there comes first, else the one with the smaller character.
pub proof fn law_the_first_difference_decides(a: Seq<char>, b: Seq<char>, i: int)
    requires
        0 <= i <= a.len(),
        i < b.len(),
        a.take(i) == b.take(i),
        i < a.len() ==> a[i] != b[i],
    ensures
        precedes(a, b) <==> (i == a.len() || a[i] < b[i]),
        precedes(b, a) <==> !precedes(a, b),
    decreases i,
{
    if i > 0 {
        assert(a.take(i)[0] == a[0] && b.take(i)[0] == b[0]);
        let (x, y) = (a.skip(1), b.skip(1));
        assert(x.take(i - 1) =~= a.take(i).skip(1));
        assert(y.take(i - 1) =~= b.take(i).skip(1));
        law_the_first_difference_decides(x, y, i - 1);
    }
}

/// A text begins with a prefix exactly where something stands behind the prefix that makes up the
/// rest of it.
pub proof fn law_prefixes_come_off(prefix: Seq<char>, rest: Seq<char>, s: Seq<char>)
    ensures
        stripped(prefix + rest, prefix) == Some(rest),
        stripped(s, prefix) matches Some(behind) ==> s == prefix + behind,
{
    let whole = prefix + rest;
    assert(whole.subrange(0, prefix.len() as int) =~= prefix);
    assert(whole.skip(prefix.len() as int) =~= rest);
    if prefix.is_prefix_of(s) {
        assert(s =~= prefix + s.skip(prefix.len() as int));
    }
}

/// A number is read digit by digit: one more digit makes it ten times as large and adds the digit,
/// as far as that fits. A text that holds anything but digits, or nothing, is no number.
pub proof fn law_digits_add_up(s: Seq<char>, d: nat, i: int)
    requires
        d < 10,
    ensures
        parsed_decimal(seq![]) is None,
        parsed_decimal(seq![digit(d)]) == Some(d as u32),
        parsed_decimal(s) matches Some(n) ==> parsed_decimal(s.push(digit(d))) == (if n as nat * 10
            + d <= u32::MAX {
            Some((n as nat * 10 + d) as u32)
        } else {
            None
        }),
        0 <= i < s.len() && !('0' <= s[i] && s[i] <= '9') ==> parsed_decimal(s) is None,
        digit(d) as nat == '0' as nat + d,
{
    let one = seq![digit(d)];
    assert(one.drop_last() =~= Seq::<char>::empty());
    assert(decimal_value(one.drop_last()) == 0);
    assert(is_digit(digit(d)));
    let more = s.push(digit(d));
    assert(more.drop_last() =~= s);
    if all_digits(s) {
        assert forall|j: int| 0 <= j < more.len() implies is_digit(#[trigger] more[j]) by {
            if j < s.len() {
                assert(more[j] == s[j]);
            }
        }
    }
    if 0 <= i < s.len() && !('0' <= s[i] && s[i] <= '9') {
        assert(!is_digit(s[i]));
    }
}

/// Zeros before a number do not change it.
pub proof fn law_leading_zeros_do_not_count(n: u32, zeros: Seq<char>)
    requires
        forall|i: int| 0 <= i < zeros.len() ==> #[trigger] zeros[i] == '0',
    ensures
        parsed_decimal(zeros + decimal(n as nat)) == Some(n),
{
    lemma_decimal_is_digits(n as nat);
    let digits = decimal(n as nat);
    lemma_zeros_add_nothing(zeros, digits);
    let all = zeros + digits;
    assert forall|i: int| 0 <= i < all.len() implies is_digit(#[trigger] all[i]) by {
        if i < zeros.len() {
            assert(all[i] == zeros[i]);
        } else {
            assert(all[i] == digits[i - zeros.len()]);
        }
    }
}

proof fn lemma_zeros_add_nothing(zeros: Seq<char>, digits: Seq<char>)
    requires
        forall|i: int| 0 <= i < zeros.len() ==> #[trigger] zeros[i] == '0',
    ensures
        decimal_value(zeros + digits) == decimal_value(digits),
    decreases zeros.len() + digits.len(),
{
    let all = zeros + digits;
    if digits.len() > 0 {
        assert(all.drop_last() =~= zeros + digits.drop_last());
        assert(all.last() == digits.last());
        lemma_zeros_add_nothing(zeros, digits.drop_last());
    } else if zeros.len() > 0 {
        assert(all =~= zeros);
        assert(zeros.drop_last() + digits =~= zeros.drop_last());
        lemma_zeros_add_nothing(zeros.drop_last(), digits);
        assert(zeros.last() == zeros[zeros.len() - 1]);
    } else {
        assert(all =~= digits);
    }
}

/// A list has a text exactly where one of its texts is that text.
pub proof fn law_lists_have_their_texts(texts: Seq<String>, wanted: Seq<char>)
    ensures
        lists(texts, wanted) <==> string_texts(texts).contains(wanted),
{
    let said = string_texts(texts);
    if lists(texts, wanted) {
        let i = choose|i: int| 0 <= i < texts.len() && (#[trigger] texts[i])@ == wanted;
        assert(said[i] == wanted);
    }
    if said.contains(wanted) {
        let i = choose|i: int| 0 <= i < said.len() && said[i] == wanted;
        assert(texts[i]@ == wanted);
    }
}

} // verus!

//! Character sequences: the bridge between `str` and `Vec<char>`, the Unicode
//! classifications the rest of the library is stated over, and the small
//! text algorithms (trimming, tokenising, substring search) built on them.

use vstd::prelude::*;
use vstd::string::StringExecFns;

verus! {

/// Whether `c` carries the Unicode `White_Space` property.
pub uninterp spec fn unicode_whitespace(c: char) -> bool;

/// Whether `c` is alphabetic or numeric in the Unicode sense.
pub uninterp spec fn unicode_alphanumeric(c: char) -> bool;

/// The Unicode lowercase form of a whole string.
pub uninterp spec fn unicode_lowercase(s: Seq<char>) -> Seq<char>;

/// `char::is_whitespace` decides the `White_Space` property of one character;
/// the contract only gives that answer its name.
pub assume_specification[ char::is_whitespace ](c: char) -> (b: bool)
    ensures
        b == unicode_whitespace(c),
;

/// `char::is_alphanumeric` decides whether one character is alphabetic or
/// numeric; the contract only gives that answer its name.
pub assume_specification[ char::is_alphanumeric ](c: char) -> (b: bool)
    ensures
        b == unicode_alphanumeric(c),
;

/// `str::to_lowercase` returns the lowercase equivalent of the string as a new
/// `String`; the contract only gives that string its name.
pub assume_specification[ str::to_lowercase ](s: &str) -> (lowered: String)
    ensures
        lowered@ == unicode_lowercase(s@),
;

/// `String::push` appends one character to the end of the string.
pub assume_specification[ String::push ](s: &mut String, c: char)
    ensures
        final(s)@ == old(s)@.push(c),
;

/// The characters of `s`, in order.
pub fn chars_of(s: &str) -> (v: Vec<char>)
    ensures
        v@ == s@,
{
    let mut v: Vec<char> = Vec::new();
    for c in it: s.chars()
        invariant
            v@ == it.seq().take(it.index() as int),
    {
        v.push(c);
    }
    v
}

/// A string made of the characters of `v`, in order.
pub fn string_of(v: &Vec<char>) -> (s: String)
    ensures
        s@ == v@,
{
    let mut s = String::new();
    let mut i: usize = 0;
    while i < v.len()
        invariant
            i <= v.len(),
            s@ == v@.take(i as int),
        decreases v.len() - i,
    {
        s.push(v[i]);
        proof {
            assert(v@.take(i + 1) =~= v@.take(i as int).push(v@[i as int]));
        }
        i += 1;
    }
    proof {
        assert(v@.take(v.len() as int) =~= v@);
    }
    s
}

/// Whether the characters in `a` spell exactly the string `b`.
pub fn chars_equal(a: &Vec<char>, b: &str) -> (same: bool)
    ensures
        same == (a@ == b@),
{
    let other = chars_of(b);
    if a.len() != other.len() {
        return false;
    }
    let mut i: usize = 0;
    while i < a.len()
        invariant
            i <= a.len(),
            a.len() == other.len(),
            other@ == b@,
            forall|j: int| 0 <= j < i ==> a@[j] == other@[j],
        decreases a.len() - i,
    {
        if a[i] != other[i] {
            return false;
        }
        i += 1;
    }
    proof {
        assert(a@ =~= other@);
    }
    true
}

/// How many whitespace characters `s` starts with.
pub open spec fn leading_whitespace(s: Seq<char>) -> nat
    decreases s.len(),
{
    if s.len() > 0 && unicode_whitespace(s[0]) {
        1 + leading_whitespace(s.drop_first())
    } else {
        0
    }
}

/// How many whitespace characters `s` ends with.
pub open spec fn trailing_whitespace(s: Seq<char>) -> nat
    decreases s.len(),
{
    if s.len() > 0 && unicode_whitespace(s.last()) {
        1 + trailing_whitespace(s.drop_last())
    } else {
        0
    }
}

/// `s` without its leading and trailing whitespace.
pub open spec fn trimmed(s: Seq<char>) -> Seq<char> {
    let rest = s.skip(leading_whitespace(s) as int);
    rest.take(rest.len() - trailing_whitespace(rest))
}

/// `leading_whitespace` is the index of the first character that is not
/// whitespace, or the length when there is none.
pub proof fn lemma_leading_whitespace(s: Seq<char>, n: int)
    requires
        0 <= n <= s.len(),
        forall|j: int| 0 <= j < n ==> unicode_whitespace(#[trigger] s[j]),
        n == s.len() || !unicode_whitespace(s[n]),
    ensures
        leading_whitespace(s) == n,
    decreases s.len(),
{
    if n > 0 {
        let rest = s.drop_first();
        assert forall|j: int| 0 <= j < n - 1 implies unicode_whitespace(#[trigger] rest[j]) by {
            assert(rest[j] == s[j + 1]);
        }
        lemma_leading_whitespace(rest, n - 1);
    }
}

/// `trailing_whitespace` counts back to the last character that is not
/// whitespace.
pub proof fn lemma_trailing_whitespace(s: Seq<char>, n: int)
    requires
        0 <= n <= s.len(),
        forall|j: int| s.len() - n <= j < s.len() ==> unicode_whitespace(#[trigger] s[j]),
        n == s.len() || !unicode_whitespace(s[s.len() - n - 1]),
    ensures
        trailing_whitespace(s) == n,
    decreases s.len(),
{
    if n > 0 {
        let rest = s.drop_last();
        assert forall|j: int| rest.len() - (n - 1) <= j < rest.len() implies unicode_whitespace(
            #[trigger] rest[j],
        ) by {
            assert(rest[j] == s[j]);
        }
        lemma_trailing_whitespace(rest, n - 1);
    }
}

/// Removes leading and trailing whitespace.
pub fn trim_chars(v: &Vec<char>) -> (out: Vec<char>)
    ensures
        out@ == trimmed(v@),
        out.len() <= v.len(),
{
    let n: usize = v.len();
    let mut start: usize = 0;
    while start < n && v[start].is_whitespace()
        invariant
            start <= n,
            n == v.len(),
            forall|j: int| 0 <= j < start ==> unicode_whitespace(#[trigger] v@[j]),
        decreases n - start,
    {
        start += 1;
    }
    let mut end: usize = n;
    while end > start && v[end - 1].is_whitespace()
        invariant
            start <= end <= n,
            n == v.len(),
            forall|j: int| end <= j < n ==> unicode_whitespace(#[trigger] v@[j]),
        decreases end,
    {
        end -= 1;
    }
    let mut out: Vec<char> = Vec::new();
    let mut i: usize = start;
    while i < end
        invariant
            start <= i <= end,
            end <= v.len(),
            out@ == v@.subrange(start as int, i as int),
        decreases end - i,
    {
        out.push(v[i]);
        proof {
            assert(v@.subrange(start as int, i + 1) =~= v@.subrange(start as int, i as int).push(
                v@[i as int],
            ));
        }
        i += 1;
    }
    proof {
        lemma_leading_whitespace(v@, start as int);
        let rest = v@.skip(start as int);
        assert forall|j: int| rest.len() - (n - end) <= j < rest.len() implies unicode_whitespace(
            #[trigger] rest[j],
        ) by {
            assert(rest[j] == v@[j + start]);
        }
        if end > start {
            assert(rest[rest.len() - (n - end) - 1] == v@[end - 1]);
        }
        lemma_trailing_whitespace(rest, n - end);
        assert(rest.take(rest.len() - (n - end)) =~= v@.subrange(start as int, end as int));
    }
    out
}

/// How many characters `s` starts with that are not whitespace.
pub open spec fn leading_word(s: Seq<char>) -> nat
    decreases s.len(),
{
    if s.len() > 0 && !unicode_whitespace(s[0]) {
        1 + leading_word(s.drop_first())
    } else {
        0
    }
}

/// The maximal runs of characters of `s` that are not whitespace, in order.
pub open spec fn words(s: Seq<char>) -> Seq<Seq<char>>
    decreases s.len(),
{
    if s.len() == 0 {
        Seq::empty()
    } else if unicode_whitespace(s[0]) {
        words(s.drop_first())
    } else {
        let n = leading_word(s);
        if 0 < n <= s.len() {
            seq![s.take(n as int)] + words(s.skip(n as int))
        } else {
            Seq::empty()
        }
    }
}

/// `leading_word` is the index of the first whitespace character, or the
/// length when there is none.
pub proof fn lemma_leading_word(s: Seq<char>, n: int)
    requires
        0 <= n <= s.len(),
        forall|j: int| 0 <= j < n ==> !unicode_whitespace(#[trigger] s[j]),
        n == s.len() || unicode_whitespace(s[n]),
    ensures
        leading_word(s) == n,
    decreases s.len(),
{
    if n > 0 {
        let rest = s.drop_first();
        assert forall|j: int| 0 <= j < n - 1 implies !unicode_whitespace(#[trigger] rest[j]) by {
            assert(rest[j] == s[j + 1]);
        }
        lemma_leading_word(rest, n - 1);
    }
}

/// Splits `v` at whitespace; no word is empty.
pub fn split_words(v: &Vec<char>) -> (out: Vec<Vec<char>>)
    ensures
        out.deep_view() == words(v@),
{
    let n: usize = v.len();
    let mut out: Vec<Vec<char>> = Vec::new();
    let mut i: usize = 0;
    proof {
        assert(v@.skip(0) =~= v@);
        assert(out.deep_view() =~= Seq::<Seq<char>>::empty());
    }
    while i < n
        invariant
            i <= n,
            n == v.len(),
            words(v@) == out.deep_view() + words(v@.skip(i as int)),
        decreases n - i,
    {
        let ghost rest = v@.skip(i as int);
        if v[i].is_whitespace() {
            proof {
                assert(rest.drop_first() =~= v@.skip(i + 1));
            }
            i += 1;
        } else {
            let mut word: Vec<char> = Vec::new();
            let mut j: usize = i;
            while j < n && !v[j].is_whitespace()
                invariant
                    i <= j <= n,
                    n == v.len(),
                    word@ == v@.subrange(i as int, j as int),
                    forall|x: int| i <= x < j ==> !unicode_whitespace(#[trigger] v@[x]),
                decreases n - j,
            {
                word.push(v[j]);
                proof {
                    assert(v@.subrange(i as int, j + 1) =~= v@.subrange(i as int, j as int).push(
                        v@[j as int],
                    ));
                }
                j += 1;
            }
            proof {
                assert forall|x: int| 0 <= x < j - i implies !unicode_whitespace(
                    #[trigger] rest[x],
                ) by {
                    assert(rest[x] == v@[x + i]);
                }
                lemma_leading_word(rest, j - i);
                assert(rest.take(j - i) =~= word@);
                assert(rest.skip(j - i) =~= v@.skip(j as int));
                let ghost before = out.deep_view();
                assert(words(rest) == seq![word@] + words(v@.skip(j as int)));
                assert(before.push(word@) + words(v@.skip(j as int)) =~= before + (seq![word@]
                    + words(v@.skip(j as int))));
            }
            let ghost before = out.deep_view();
            let ghost word_view = word@;
            out.push(word);
            proof {
                assert(out@[out.len() - 1].deep_view() =~= word_view);
                assert(out.deep_view() =~= before.push(word_view));
            }
            i = j;
        }
    }
    proof {
        assert(v@.skip(n as int) =~= Seq::<char>::empty());
        assert(out.deep_view() + Seq::<Seq<char>>::empty() =~= out.deep_view());
    }
    out
}

/// Whether `needle` occurs in `hay` as a contiguous run.
pub open spec fn occurs_in(hay: Seq<char>, needle: Seq<char>) -> bool {
    exists|i: int| occurs_at(hay, needle, i)
}

/// Whether `needle` occurs in `hay` starting at index `i`.
pub open spec fn occurs_at(hay: Seq<char>, needle: Seq<char>, i: int) -> bool {
    0 <= i && i + needle.len() <= hay.len() && hay.subrange(i, i + needle.len()) == needle
}

/// Substring search over characters.
pub fn contains_chars(hay: &Vec<char>, needle: &Vec<char>) -> (found: bool)
    ensures
        found == occurs_in(hay@, needle@),
{
    let n: usize = hay.len();
    let m: usize = needle.len();
    if m > n {
        return false;
    }
    let mut i: usize = 0;
    while i <= n - m
        invariant
            m <= n,
            n == hay.len(),
            m == needle.len(),
            i <= n - m + 1,
            forall|p: int| 0 <= p < i ==> !occurs_at(hay@, needle@, p),
        decreases n - m + 1 - i,
    {
        let mut j: usize = 0;
        while j < m && hay[i + j] == needle[j]
            invariant
                j <= m,
                m <= n,
                n == hay.len(),
                m == needle.len(),
                i <= n - m,
                forall|q: int| 0 <= q < j ==> hay@[i + q] == needle@[q],
            decreases m - j,
        {
            j += 1;
        }
        if j == m {
            proof {
                assert(hay@.subrange(i as int, i + m) =~= needle@);
                assert(occurs_at(hay@, needle@, i as int));
            }
            return true;
        }
        proof {
            assert(hay@.subrange(i as int, i + m)[j as int] == hay@[i + j]);
        }
        i += 1;
    }
    false
}

/// The character sequences of a list of strings.
pub open spec fn views(strings: Seq<String>) -> Seq<Seq<char>> {
    strings.map_values(|s: String| s@)
}

/// The character sequence of an optional string.
pub open spec fn view_of(s: Option<String>) -> Option<Seq<char>> {
    match s {
        Some(s) => Some(s@),
        None => None,
    }
}

/// One owned string per word.
pub fn strings_of(words: &Vec<Vec<char>>) -> (out: Vec<String>)
    ensures
        views(out@) == words.deep_view(),
{
    let mut out: Vec<String> = Vec::new();
    let mut i: usize = 0;
    while i < words.len()
        invariant
            i <= words.len(),
            out.len() == i,
            forall|j: int| 0 <= j < i ==> (#[trigger] out@[j])@ == words@[j]@,
        decreases words.len() - i,
    {
        let s = string_of(&words[i]);
        out.push(s);
        i += 1;
    }
    proof {
        assert forall|j: int| 0 <= j < words.len() implies views(out@)[j] == #[trigger] words.deep_view()[j] by {
            assert(words@[j].deep_view() =~= words@[j]@);
        }
        assert(views(out@) =~= words.deep_view());
    }
    out
}

/// Whether two strings hold the same characters.
pub fn str_equal(a: &str, b: &str) -> (same: bool)
    ensures
        same == (a@ == b@),
{
    let chars = chars_of(a);
    chars_equal(&chars, b)
}

/// The parts of a list, with a separator between each two.
pub open spec fn joined(parts: Seq<Seq<char>>, separator: Seq<char>) -> Seq<char>
    decreases parts.len(),
{
    if parts.len() == 0 {
        Seq::empty()
    } else if parts.len() == 1 {
        parts[0]
    } else {
        joined(parts.drop_last(), separator) + separator + parts.last()
    }
}

/// Joins strings with a separator.
pub fn join_strings(parts: &Vec<String>, separator: &str) -> (out: String)
    ensures
        out@ == joined(views(parts@), separator@),
{
    let mut out = String::new();
    let ghost all = views(parts@);
    let mut i: usize = 0;
    while i < parts.len()
        invariant
            i <= parts.len(),
            all == views(parts@),
            out@ == joined(all.take(i as int), separator@),
        decreases parts.len() - i,
    {
        proof {
            assert(all.take(i + 1).drop_last() =~= all.take(i as int));
            assert(all.take(i + 1).last() == parts@[i as int]@);
            if i == 0 {
                assert(all.take(1)[0] == parts@[0]@);
                assert(Seq::<char>::empty() + parts@[0]@ =~= parts@[0]@);
            }
        }
        if i > 0 {
            out.append(separator);
        }
        out.append(parts[i].as_str());
        i += 1;
    }
    proof {
        assert(all.take(parts.len() as int) =~= all);
    }
    out
}

/// The character of a decimal digit.
pub open spec fn digit(d: int) -> char {
    seq!['0', '1', '2', '3', '4', '5', '6', '7', '8', '9'][d]
}

/// A natural number in decimal, without leading zeros.
pub open spec fn decimal(n: nat) -> Seq<char>
    decreases n,
{
    if n < 10 {
        seq![digit(n as int)]
    } else {
        decimal(n / 10).push(digit((n % 10) as int))
    }
}

/// A whole number in decimal, with `-` before a negative one.
pub open spec fn signed_decimal(n: int) -> Seq<char> {
    if n < 0 {
        seq!['-'] + decimal((-n) as nat)
    } else {
        decimal(n as nat)
    }
}

/// The digits after the decimal point of `fraction / 10^width`, without
/// trailing zeros.
pub open spec fn fraction_digits(fraction: nat, width: nat) -> Seq<char>
    decreases width,
{
    if fraction == 0 || width == 0 {
        Seq::empty()
    } else {
        let scale = vstd::arithmetic::power::pow(10, (width - 1) as nat) as nat;
        seq![digit((fraction / scale) as int % 10)] + fraction_digits(
            fraction % scale,
            (width - 1) as nat,
        )
    }
}

/// A number of millionths as a decimal fraction: `7500000` is `7.5`,
/// `7000000` is `7`, `-250000` is `-0.25`.
pub open spec fn millionths_decimal(m: int) -> Seq<char> {
    let size = if m < 0 { (-m) as nat } else { m as nat };
    let whole = decimal(size / 1_000_000);
    let fraction = fraction_digits(size % 1_000_000, 6);
    (if m < 0 { seq!['-'] } else { Seq::empty() }) + whole + (if fraction.len() > 0 {
        seq!['.'] + fraction
    } else {
        Seq::empty()
    })
}

/// The character of a decimal digit.
pub fn digit_char(d: u64) -> (c: char)
    requires
        d < 10,
    ensures
        c == digit(d as int),
{
    if d == 0 {
        '0'
    } else if d == 1 {
        '1'
    } else if d == 2 {
        '2'
    } else if d == 3 {
        '3'
    } else if d == 4 {
        '4'
    } else if d == 5 {
        '5'
    } else if d == 6 {
        '6'
    } else if d == 7 {
        '7'
    } else if d == 8 {
        '8'
    } else {
        '9'
    }
}

/// Writes a natural number in decimal.
pub fn format_decimal(n: u64) -> (out: Vec<char>)
    ensures
        out@ == decimal(n as nat),
{
    let mut out: Vec<char> = Vec::new();
    let mut rest: u64 = n;
    proof {
        assert(decimal(n as nat) + out@ =~= decimal(n as nat));
    }
    while rest >= 10
        invariant
            decimal(n as nat) == decimal(rest as nat) + out@,
        decreases rest,
    {
        let ghost before = out@;
        out.insert(0, digit_char(rest % 10));
        proof {
            let d = digit((rest % 10) as int);
            assert(out@ =~= seq![d] + before);
            assert(decimal(rest as nat) == decimal((rest / 10) as nat).push(d));
            assert(decimal((rest / 10) as nat).push(d) + before =~= decimal((rest / 10) as nat) + (
            seq![d] + before));
        }
        rest = rest / 10;
    }
    let ghost before = out@;
    out.insert(0, digit_char(rest));
    proof {
        assert(out@ =~= seq![digit(rest as int)] + before);
    }
    out
}

/// Writes a whole number in decimal.
pub fn format_signed(n: i64) -> (out: Vec<char>)
    ensures
        out@ == signed_decimal(n as int),
{
    if n < 0 {
        let size: u64 = if n == i64::MIN { 0x8000_0000_0000_0000 } else { (-n) as u64 };
        let mut out = format_decimal(size);
        let ghost digits = out@;
        out.insert(0, '-');
        proof {
            assert(out@ =~= seq!['-'] + digits);
        }
        out
    } else {
        format_decimal(n as u64)
    }
}

/// Writes a number of millionths as a decimal fraction.
pub fn format_millionths(m: i64) -> (out: Vec<char>)
    ensures
        out@ == millionths_decimal(m as int),
{
    let size: u64 = if m >= 0 {
        m as u64
    } else if m == i64::MIN {
        0x8000_0000_0000_0000
    } else {
        (-m) as u64
    };
    let mut out: Vec<char> = Vec::new();
    if m < 0 {
        out.push('-');
    }
    let whole = format_decimal(size / 1_000_000);
    let ghost sign = out@;
    let mut i: usize = 0;
    while i < whole.len()
        invariant
            i <= whole.len(),
            out@ == sign + whole@.take(i as int),
        decreases whole.len() - i,
    {
        out.push(whole[i]);
        proof {
            assert(whole@.take(i + 1) =~= whole@.take(i as int).push(whole@[i as int]));
            assert(sign + whole@.take(i as int).push(whole@[i as int]) =~= (sign + whole@.take(
                i as int,
            )).push(whole@[i as int]));
        }
        i += 1;
    }
    proof {
        assert(whole@.take(whole.len() as int) =~= whole@);
    }
    let ghost head = out@;
    let mut fraction: u64 = size % 1_000_000;
    let ghost start = fraction as nat;
    if fraction > 0 {
        out.push('.');
        let mut width: u32 = 6;
        let mut scale: u64 = 100_000;
        let ghost mut written: Seq<char> = Seq::empty();
        proof {
            vstd::arithmetic::power::lemma_pow1(10);
            reveal_with_fuel(vstd::arithmetic::power::pow, 7);
            assert(vstd::arithmetic::power::pow(10, 5) == 100_000);
        }
        while fraction > 0 && width > 0
            invariant
                width <= 6,
                scale == vstd::arithmetic::power::pow(10, (width - 1) as nat) || width == 0,
                width > 0 ==> fraction < scale * 10,
                width == 0 ==> fraction == 0,
                out@ == head + seq!['.'] + written,
                fraction_digits(start, 6) == written + fraction_digits(fraction as nat, width as nat),
            decreases width,
        {
            let d: u64 = fraction / scale;
            let ghost before = written;
            assert(d < 10) by (nonlinear_arith)
                requires
                    d == fraction / scale,
                    fraction < scale * 10,
                    scale > 0,
            ;
            out.push(digit_char(d));
            proof {
                written = before.push(digit(d as int));
                assert(d as int % 10 == d);
                assert(before + (seq![digit(d as int)] + fraction_digits(
                    (fraction % scale) as nat,
                    (width - 1) as nat,
                )) =~= written + fraction_digits((fraction % scale) as nat, (width - 1) as nat));
                assert(head + seq!['.'] + before.push(digit(d as int)) =~= (head + seq!['.']
                    + before).push(digit(d as int)));
                reveal_with_fuel(vstd::arithmetic::power::pow, 7);
                if width > 1 {
                    assert(vstd::arithmetic::power::pow(10, (width - 1) as nat) == 10
                        * vstd::arithmetic::power::pow(10, (width - 2) as nat));
                } else {
                    assert(vstd::arithmetic::power::pow(10, 0) == 1);
                    assert(fraction % scale == 0);
                }
            }
            fraction = fraction % scale;
            scale = scale / 10;
            width = width - 1;
        }
        proof {
            assert(fraction_digits(fraction as nat, width as nat) =~= Seq::<char>::empty());
            assert(written + Seq::<char>::empty() =~= written);
            assert(written.len() > 0);
        }
    } else {
        proof {
            assert(fraction_digits(0, 6) =~= Seq::<char>::empty());
            assert(out@ + Seq::<char>::empty() =~= out@);
        }
    }
    proof {
        assert(out@ =~= millionths_decimal(m as int));
    }
    out
}

} // verus!

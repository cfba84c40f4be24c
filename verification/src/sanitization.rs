//! Cleaning of text that comes from outside: HTML through a sanitizer,
//! queries and names through a character filter.

use crate::text::{
    chars_of, contains_chars, occurs_in, string_of, trim_chars, trimmed, unicode_alphanumeric,
    unicode_lowercase, unicode_whitespace,
};
use std::collections::HashSet;
use vstd::prelude::*;

verus! {

/// The most characters a sanitized search query keeps before trimming.
pub const MAX_SEARCH_QUERY_CHARS: usize = 256;

/// The most characters a sanitized display name keeps before trimming.
pub const MAX_DISPLAY_NAME_CHARS: usize = 64;

/// What the HTML sanitizer makes of a text with its default settings.
pub uninterp spec fn ammonia_clean(input: Seq<char>) -> Seq<char>;

/// What the HTML sanitizer makes of a text when only the given tags are
/// allowed.
pub uninterp spec fn ammonia_clean_with_tags(input: Seq<char>, tags: Set<Seq<char>>) -> Seq<char>;

/// The set of the tags in a list.
pub open spec fn tag_set(tags: Seq<&str>) -> Set<Seq<char>> {
    Set::new(|tag: Seq<char>| exists|i: int| 0 <= i < tags.len() && (#[trigger] tags[i])@ == tag)
}

/// Whether the sanitizer accepts a list of allowed tags: it must hold
/// neither `script` nor `style`, whose content the sanitizer removes.
pub open spec fn tags_accepted(tags: Seq<&str>) -> bool {
    forall|i: int| 0 <= i < tags.len() ==> (#[trigger] tags[i])@ != "script"@ && tags[i]@ != "style"@
}

/// `ammonia::clean` sanitizes with the defaults of the crate. The contract
/// gives the result its name and claims no more.
#[verifier::external_body]
fn clean_html(input: &str) -> (clean: String)
    ensures
        clean@ == ammonia_clean(input@),
{
    ammonia::clean(input)
}

/// `ammonia::Builder::default`, then `tags` with the allowed tags as a set,
/// then `clean`, and `to_string` on the document. With `script` or `style`
/// among the tags `clean` panics, so they are left out. The contract gives
/// the result its name and claims no more.
#[verifier::external_body]
fn clean_html_with_tags(input: &str, allowed_tags: &[&str]) -> (clean: String)
    requires
        tags_accepted(allowed_tags@),
    ensures
        clean@ == ammonia_clean_with_tags(input@, tag_set(allowed_tags@)),
{
    let tags: HashSet<&str> = allowed_tags.iter().copied().collect();
    ammonia::Builder::default().tags(tags).clean(input).to_string()
}

/// Removes everything dangerous from HTML.
pub fn sanitize_html(input: &str) -> (clean: String)
    ensures
        clean@ == ammonia_clean(input@),
{
    clean_html(input)
}

/// Sanitizes HTML, allowing only the given tags.
pub fn sanitize_html_with_tags(input: &str, allowed_tags: &[&str]) -> (clean: String)
    requires
        tags_accepted(allowed_tags@),
    ensures
        clean@ == ammonia_clean_with_tags(input@, tag_set(allowed_tags@)),
{
    clean_html_with_tags(input, allowed_tags)
}

/// The first `limit` items of `s`, or all of it where it has fewer.
pub open spec fn prefix<T>(s: Seq<T>, limit: int) -> Seq<T> {
    if limit < s.len() {
        s.take(limit)
    } else {
        s
    }
}

/// Whether a character is kept by the filters: letters, digits, whitespace,
/// `-`, `_`, and the extra character of the filter where it has one.
pub open spec fn is_kept(c: char, extra: Option<char>) -> bool {
    unicode_alphanumeric(c) || unicode_whitespace(c) || c == '-' || c == '_' || extra == Some(c)
}

/// The filter as a predicate.
pub open spec fn keeps(extra: Option<char>) -> spec_fn(char) -> bool {
    |c: char| is_kept(c, extra)
}

/// What a filter makes of a text: the kept characters, at most `limit` of
/// them, without whitespace at either end.
pub open spec fn filtered(input: Seq<char>, extra: Option<char>, limit: int) -> Seq<char> {
    trimmed(prefix(input.filter(keeps(extra)), limit))
}

/// Keeps the allowed characters, at most `limit` of them, and trims.
pub fn filter_text(input: &str, extra: Option<char>, limit: usize) -> (out: String)
    ensures
        out@ == filtered(input@, extra, limit as int),
        out@.len() <= limit,
{
    let chars = chars_of(input);
    let mut kept: Vec<char> = Vec::new();
    let mut i: usize = 0;
    proof {
        reveal(Seq::filter);
        assert(chars@.take(0).filter(keeps(extra)) =~= Seq::<char>::empty());
    }
    while i < chars.len()
        invariant
            i <= chars.len(),
            kept.len() <= limit,
            kept@ == prefix(chars@.take(i as int).filter(keeps(extra)), limit as int),
        decreases chars.len() - i,
    {
        let c = chars[i];
        let ghost before = chars@.take(i as int).filter(keeps(extra));
        proof {
            reveal(Seq::filter);
            assert(chars@.take(i + 1).drop_last() =~= chars@.take(i as int));
            assert(chars@.take(i + 1).last() == c);
            if is_kept(c, extra) {
                assert(chars@.take(i + 1).filter(keeps(extra)) == before.push(c));
                if before.len() < limit {
                    assert(prefix(before.push(c), limit as int) =~= before.push(c));
                } else {
                    assert(prefix(before.push(c), limit as int) =~= prefix(before, limit as int));
                }
            } else {
                assert(chars@.take(i + 1).filter(keeps(extra)) == before);
            }
        }
        let is_extra = match extra {
            Some(e) => c == e,
            None => false,
        };
        if (c.is_alphanumeric() || c.is_whitespace() || c == '-' || c == '_' || is_extra)
            && kept.len() < limit {
            kept.push(c);
        }
        i += 1;
    }
    proof {
        assert(chars@.take(chars.len() as int) =~= chars@);
    }
    let trimmed_chars = trim_chars(&kept);
    string_of(&trimmed_chars)
}

/// Keeps letters, digits, whitespace, `-` and `_` of a search query, at
/// most 256 characters, and trims.
pub fn sanitize_search_query(input: &str) -> (out: String)
    ensures
        out@ == filtered(input@, None, 256),
        out@.len() <= 256,
{
    filter_text(input, None, MAX_SEARCH_QUERY_CHARS)
}

/// Keeps letters, digits, whitespace, `-`, `_` and `.` of a display name,
/// at most 64 characters, and trims.
pub fn sanitize_display_name(input: &str) -> (out: String)
    ensures
        out@ == filtered(input@, Some('.'), 64),
        out@.len() <= 64,
{
    filter_text(input, Some('.'), MAX_DISPLAY_NAME_CHARS)
}

/// Sanitizes a text field as HTML and keeps at most `max_length` characters.
pub fn sanitize_text(input: &str, max_length: usize) -> (out: String)
    ensures
        out@ == prefix(ammonia_clean(input@), max_length as int),
{
    let cleaned = clean_html(input);
    let chars = chars_of(cleaned.as_str());
    let mut kept: Vec<char> = Vec::new();
    let mut i: usize = 0;
    while i < chars.len() && i < max_length
        invariant
            i <= chars.len(),
            i <= max_length,
            kept@ == chars@.take(i as int),
        decreases chars.len() - i,
    {
        kept.push(chars[i]);
        proof {
            assert(chars@.take(i + 1) =~= chars@.take(i as int).push(chars@[i as int]));
        }
        i += 1;
    }
    proof {
        assert(kept@ =~= prefix(chars@, max_length as int));
    }
    string_of(&kept)
}

/// The fragments that give away a script injection, in lowercase.
pub open spec fn xss_patterns() -> Seq<Seq<char>> {
    seq![
        "<script"@,
        "javascript:"@,
        "onerror="@,
        "onload="@,
        "onclick="@,
        "onmouseover="@,
        "onfocus="@,
        "onblur="@,
        "<iframe"@,
        "<object"@,
        "<embed"@,
        "data:text/html"@,
        "vbscript:"@,
    ]
}

/// Whether any of the patterns occurs in a text.
pub open spec fn any_occurs(text: Seq<char>, patterns: Seq<Seq<char>>) -> bool {
    exists|i: int| 0 <= i < patterns.len() && occurs_in(text, #[trigger] patterns[i])
}

/// The patterns of `xss_patterns`.
pub fn xss_pattern_list() -> (patterns: Vec<&'static str>)
    ensures
        patterns@.len() == xss_patterns().len(),
        forall|i: int| 0 <= i < patterns@.len() ==> (#[trigger] patterns@[i])@ == xss_patterns()[i],
{
    let mut patterns: Vec<&'static str> = Vec::new();
    patterns.push("<script");
    patterns.push("javascript:");
    patterns.push("onerror=");
    patterns.push("onload=");
    patterns.push("onclick=");
    patterns.push("onmouseover=");
    patterns.push("onfocus=");
    patterns.push("onblur=");
    patterns.push("<iframe");
    patterns.push("<object");
    patterns.push("<embed");
    patterns.push("data:text/html");
    patterns.push("vbscript:");
    patterns
}

/// Whether the lowercase form of the input holds one of the fragments that
/// give away a script injection.
pub fn contains_xss_patterns(input: &str) -> (found: bool)
    ensures
        found == any_occurs(unicode_lowercase(input@), xss_patterns()),
{
    let lower = input.to_lowercase();
    let text = chars_of(lower.as_str());
    let patterns = xss_pattern_list();
    let mut i: usize = 0;
    while i < patterns.len()
        invariant
            i <= patterns.len(),
            text@ == unicode_lowercase(input@),
            patterns@.len() == xss_patterns().len(),
            forall|j: int| 0 <= j < patterns@.len() ==> (#[trigger] patterns@[j])@ == xss_patterns()[j],
            forall|j: int| 0 <= j < i ==> !occurs_in(text@, #[trigger] xss_patterns()[j]),
        decreases patterns.len() - i,
    {
        let needle = chars_of(patterns[i]);
        assert(needle@ == xss_patterns()[i as int]);
        if contains_chars(&text, &needle) {
            return true;
        }
        i += 1;
    }
    false
}

/// What a character becomes inside a JSON string: a backslash before `\`
/// and `"`, and the two-character escapes for newline, carriage return and
/// tab.
pub open spec fn escape_char(c: char) -> Seq<char> {
    if c == '\\' {
        seq!['\\', '\\']
    } else if c == '"' {
        seq!['\\', '"']
    } else if c == '\n' {
        seq!['\\', 'n']
    } else if c == '\r' {
        seq!['\\', 'r']
    } else if c == '\t' {
        seq!['\\', 't']
    } else {
        seq![c]
    }
}

/// The escapes of the characters of a text, joined.
pub open spec fn escaped(s: Seq<char>) -> Seq<char>
    decreases s.len(),
{
    if s.len() == 0 {
        Seq::empty()
    } else {
        escaped(s.drop_last()) + escape_char(s.last())
    }
}

/// Escapes a text for use inside a JSON string.
pub fn escape_json_string(input: &str) -> (out: String)
    ensures
        out@ == escaped(input@),
{
    let chars = chars_of(input);
    let mut result: Vec<char> = Vec::new();
    let mut i: usize = 0;
    while i < chars.len()
        invariant
            i <= chars.len(),
            result@ == escaped(chars@.take(i as int)),
        decreases chars.len() - i,
    {
        let c = chars[i];
        let ghost before = result@;
        proof {
            assert(chars@.take(i + 1).drop_last() =~= chars@.take(i as int));
            assert(chars@.take(i + 1).last() == c);
        }
        if c == '\\' {
            result.push('\\');
            result.push('\\');
        } else if c == '"' {
            result.push('\\');
            result.push('"');
        } else if c == '\n' {
            result.push('\\');
            result.push('n');
        } else if c == '\r' {
            result.push('\\');
            result.push('r');
        } else if c == '\t' {
            result.push('\\');
            result.push('t');
        } else {
            result.push(c);
        }
        proof {
            assert(result@ =~= before + escape_char(c));
        }
        i += 1;
    }
    proof {
        assert(chars@.take(chars.len() as int) =~= chars@);
    }
    string_of(&result)
}

} // verus!

//! Small general-purpose helpers.

use vstd::prelude::*;
use vstd::string::*;

verus! {

/// Character-for-character string equality.
pub fn str_eq(a: &str, b: &str) -> (r: bool)
    ensures
        r == (a@ == b@),
{
    let a_len = a.unicode_len();
    let b_len = b.unicode_len();
    if a_len != b_len {
        return false;
    }
    let mut i: usize = 0;
    while i < a_len
        invariant
            0 <= i <= a_len,
            a_len == a@.len(),
            a_len == b@.len(),
            forall|j: int| 0 <= j < i ==> a@[j] == b@[j],
        decreases a_len - i,
    {
        if a.get_char(i) != b.get_char(i) {
            return false;
        }
        i += 1;
    }
    proof {
        assert(a@ =~= b@);
    }
    true
}

/// Turn an empty string into nothing.
pub fn null_if_empty(s: String) -> (r: Option<String>)
    ensures
        s@.len() == 0 ==> r is None,
        s@.len() > 0 ==> r == Some(s),
{
    if s.as_str().is_empty() {
        None
    } else {
        Some(s)
    }
}

pub uninterp spec fn is_numeric_char(c: char) -> bool;

/// Relies on `char::is_numeric`: whether a character is numeric depends on
/// the character alone (the Unicode tables compiled into std).
#[verifier::external_body]
fn char_is_numeric(c: char) -> (r: bool)
    ensures
        r == is_numeric_char(c),
{
    c.is_numeric()
}

/// Whether the string holds numeric characters only.
pub fn is_string_num(s: &str) -> (r: bool)
    ensures
        r == (forall|i: int| 0 <= i < s@.len() ==> is_numeric_char(#[trigger] s@[i])),
{
    let n = s.unicode_len();
    let mut i: usize = 0;
    while i < n
        invariant
            0 <= i <= n,
            n == s@.len(),
            forall|j: int| 0 <= j < i ==> is_numeric_char(#[trigger] s@[j]),
        decreases n - i,
    {
        if !char_is_numeric(s.get_char(i)) {
            return false;
        }
        i += 1;
    }
    true
}

/// Double every element of the vector in place.
pub fn double(a: &mut Vec<i32>)
    requires
        forall|i: int| 0 <= i < old(a)@.len() ==> -1073741824 <= #[trigger] old(a)@[i]
            <= 1073741823,
    ensures
        final(a)@.len() == old(a)@.len(),
        forall|i: int| 0 <= i < old(a)@.len() ==> #[trigger] final(a)@[i] == 2 * old(a)@[i],
{
    let n = a.len();
    let mut i: usize = 0;
    while i < n
        invariant
            0 <= i <= n,
            n == a@.len(),
            forall|j: int| 0 <= j < n ==> -1073741824 <= #[trigger] old(a)@[j] <= 1073741823,
            forall|j: int| i <= j < n ==> #[trigger] a@[j] == old(a)@[j],
            forall|j: int| 0 <= j < i ==> #[trigger] a@[j] == 2 * old(a)@[j],
        decreases n - i,
    {
        let v = a[i];
        a.set(i, v * 2);
        i += 1;
    }
}

/// A substring occurs somewhere in the sequence.
pub open spec fn contains_seq(h: Seq<char>, n: Seq<char>) -> bool {
    exists|i: int| 0 <= i <= h.len() - n.len() && #[trigger] h.subrange(i, i + n.len()) == n
}

/// Whether `needle` occurs in `hay`.
pub fn str_contains_sub(hay: &str, needle: &str) -> (r: bool)
    ensures
        r == contains_seq(hay@, needle@),
{
    let h_len = hay.unicode_len();
    let n_len = needle.unicode_len();
    if n_len > h_len {
        return false;
    }
    if n_len == 0 {
        proof {
            assert(hay@.subrange(0, 0 + needle@.len() as int) =~= needle@);
        }
        return true;
    }
    let mut i: usize = 0;
    while i <= h_len - n_len
        invariant
            0 <= i <= h_len - n_len + 1,
            1 <= n_len <= h_len,
            h_len == hay@.len(),
            n_len == needle@.len(),
            forall|k: int| 0 <= k < i ==> #[trigger] hay@.subrange(k, k + needle@.len()) != needle@,
        decreases h_len - n_len + 1 - i,
    {
        let mut j: usize = 0;
        let mut hit = true;
        while j < n_len
            invariant
                0 <= j <= n_len,
                i + n_len <= h_len,
                h_len == hay@.len(),
                n_len == needle@.len(),
                hit ==> forall|t: int| 0 <= t < j ==> hay@[i + t] == needle@[t],
                !hit ==> hay@.subrange(i as int, i + needle@.len()) != needle@,
            decreases n_len - j,
        {
            if hay.get_char(i + j) != needle.get_char(j) {
                proof {
                    assert(hay@.subrange(i as int, i + needle@.len())[j as int] == hay@[i + j]);
                }
                hit = false;
                j = n_len;
            } else {
                j += 1;
            }
        }
        if hit {
            proof {
                assert(hay@.subrange(i as int, i + needle@.len()) =~= needle@);
            }
            return true;
        }
        i += 1;
    }
    false
}

/// The default tag derived from a saved article's url.
pub open spec fn default_article_tag_spec(url: Seq<char>) -> Seq<char> {
    if contains_seq(url, "instagram.com"@) {
        "instagram"@
    } else if contains_seq(url, "twitter.com"@) {
        "twitter"@
    } else if contains_seq(url, "youtube.com"@) || contains_seq(url, "youtu.be"@) {
        "youtube"@
    } else if contains_seq(url, "github.com"@) || contains_seq(url, "github1s.com"@) {
        "github"@
    } else {
        "article"@
    }
}

/// Derive the default article tag from a url.
pub fn get_default_article_tag(url: &str) -> (r: String)
    ensures
        r@ == default_article_tag_spec(url@),
{
    if str_contains_sub(url, "instagram.com") {
        String::from_str("instagram")
    } else if str_contains_sub(url, "twitter.com") {
        String::from_str("twitter")
    } else if str_contains_sub(url, "youtube.com") || str_contains_sub(url, "youtu.be") {
        String::from_str("youtube")
    } else if str_contains_sub(url, "github.com") || str_contains_sub(url, "github1s.com") {
        String::from_str("github")
    } else {
        String::from_str("article")
    }
}

pub uninterp spec fn is_alphanumeric_char(c: char) -> bool;

/// Relies on `char::is_alphanumeric`: whether a character is alphanumeric
/// depends on the character alone (the Unicode tables compiled into std).
#[verifier::external_body]
fn char_is_alphanumeric(c: char) -> (r: bool)
    ensures
        r == is_alphanumeric_char(c),
{
    c.is_alphanumeric()
}

pub uninterp spec fn is_whitespace_char(c: char) -> bool;

/// Relies on `char::is_whitespace`: whether a character is whitespace
/// depends on the character alone (the Unicode tables compiled into std).
#[verifier::external_body]
fn char_is_whitespace(c: char) -> (r: bool)
    ensures
        r == is_whitespace_char(c),
{
    c.is_whitespace()
}

/// A character a search text may carry: word characters, whitespace, a small
/// set of punctuation, and a few accented letters.
pub open spec fn is_search_char(c: char) -> bool {
    ||| is_alphanumeric_char(c)
    ||| is_whitespace_char(c)
    ||| c == '-'
    ||| c == '@'
    ||| c == '.'
    ||| c == '\''
    ||| c == '?'
    ||| c == '_'
    ||| c == '"'
    ||| c == ','
    ||| c == '!'
    ||| c == '\u{c9}'
    ||| c == '\u{e8}'
    ||| c == '\u{e9}'
    ||| c == '\u{e7}'
    ||| c == '\u{e0}'
    ||| c == '['
    ||| c == ']'
}

/// Decide whether a text is safe to hand to the document database as a
/// search: non-empty, and out of allowed characters only.
pub fn is_valid_mongo_search(search: &str) -> (r: bool)
    ensures
        r == (search@.len() > 0 && forall|i: int|
            0 <= i < search@.len() ==> is_search_char(#[trigger] search@[i])),
{
    let n = search.unicode_len();
    if n == 0 {
        return false;
    }
    let mut i: usize = 0;
    while i < n
        invariant
            0 <= i <= n,
            n == search@.len(),
            forall|j: int| 0 <= j < i ==> is_search_char(#[trigger] search@[j]),
        decreases n - i,
    {
        let c = search.get_char(i);
        let ok = char_is_alphanumeric(c) || char_is_whitespace(c) || c == '-' || c == '@'
            || c == '.' || c == '\'' || c == '?' || c == '_' || c == '"' || c == ',' || c == '!'
            || c == '\u{c9}' || c == '\u{e8}' || c == '\u{e9}' || c == '\u{e7}' || c == '\u{e0}'
            || c == '[' || c == ']';
        if !ok {
            return false;
        }
        i += 1;
    }
    true
}

} // verus!

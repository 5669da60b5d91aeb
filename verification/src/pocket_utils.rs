//! Rules for classifying and tagging saved items, working on the plain url
//! and tag values the callers hand in.

use vstd::prelude::*;
use vstd::string::*;
use crate::utils::{contains_seq, default_article_tag_spec, get_default_article_tag, str_contains_sub, str_eq};

verus! {

/// The url a saved item is known by: the given one, or the resolved one
/// where none was given.
pub open spec fn given_or_resolved(given: Seq<char>, resolved: Seq<char>) -> Seq<char> {
    if given.len() == 0 {
        resolved
    } else {
        given
    }
}

/// Pick the url a saved item is known by.
pub fn get_valid_url(given_url: String, resolved_url: String) -> (r: String)
    ensures
        r@ == given_or_resolved(given_url@, resolved_url@),
{
    if given_url.as_str().is_empty() {
        resolved_url
    } else {
        given_url
    }
}

/// Pick the title a saved item is known by: the given one, or the resolved
/// one where none was given.
pub fn get_valid_title(given_title: String, resolved_title: String) -> (r: String)
    ensures
        r@ == given_or_resolved(given_title@, resolved_title@),
{
    if given_title.as_str().is_empty() {
        resolved_title
    } else {
        given_title
    }
}

/// Classify a saved item by the platform its url names.
pub fn get_pocket_src_type(given_url: String, resolved_url: String) -> (r: String)
    ensures
        r@ == default_article_tag_spec(given_or_resolved(given_url@, resolved_url@)),
{
    let url = get_valid_url(given_url, resolved_url);
    get_default_article_tag(url.as_str())
}

/// Whether `tags` already holds the tag.
pub open spec fn has_tag(tags: Seq<Seq<char>>, tag: Seq<char>) -> bool {
    exists|i: int| 0 <= i < tags.len() && tags[i] == tag
}

/// One tagging rule: when the url names the platform and the tag is not yet
/// present, it is appended.
pub open spec fn tag_step(
    tags: Seq<Seq<char>>,
    url: Seq<char>,
    platform: Seq<char>,
    tag: Seq<char>,
) -> Seq<Seq<char>> {
    if contains_seq(url, platform) && !has_tag(tags, tag) {
        tags.push(tag)
    } else {
        tags
    }
}

/// The tags of a saved item: the existing ones, a tag for each platform its
/// url names, `tech` alongside `github`, and `article` when nothing else
/// applies.
pub open spec fn inject_tags_spec(url: Seq<char>, tags0: Seq<Seq<char>>) -> Seq<Seq<char>> {
    let t1 = tag_step(tags0, url, "youtube.com"@, "youtube"@);
    let t2 = tag_step(t1, url, "youtu.be"@, "youtube"@);
    let t3 = tag_step(t2, url, "github.com"@, "github"@);
    let t4 = tag_step(t3, url, "github1s.com"@, "github"@);
    let t5 = tag_step(t4, url, "twitter.com"@, "twitter"@);
    let t6 = tag_step(t5, url, "instagram.com"@, "instagram"@);
    let t7 = if has_tag(t6, "github"@) {
        t6.push("tech"@)
    } else {
        t6
    };
    if t7.len() == 0 {
        t7.push("article"@)
    } else {
        t7
    }
}

/// Whether the tag list holds the tag.
fn vec_has_tag(tags: &Vec<String>, tag: &str) -> (r: bool)
    ensures
        r == has_tag(tags.deep_view(), tag@),
{
    let n = tags.len();
    let mut i: usize = 0;
    while i < n
        invariant
            0 <= i <= n,
            n == tags.len(),
            forall|j: int| 0 <= j < i ==> tags.deep_view()[j] != tag@,
        decreases n - i,
    {
        if str_eq(tags[i].as_str(), tag) {
            assert(tags.deep_view()[i as int] == tag@);
            return true;
        }
        i += 1;
    }
    false
}

/// Apply one tagging rule in place.
fn apply_tag_step(tags: &mut Vec<String>, url: &str, platform: &str, tag: &str)
    ensures
        final(tags).deep_view() == tag_step(old(tags).deep_view(), url@, platform@, tag@),
{
    let ghost tags0 = tags.deep_view();
    if str_contains_sub(url, platform) && !vec_has_tag(tags, tag) {
        tags.push(tag.to_owned());
        proof {
            assert(tags.deep_view() =~= tags0.push(tag@));
        }
    }
}

/// Derive the tags of a saved item from its url and the tags it already
/// carries.
pub fn inject_tags_from_url(given_url: String, resolved_url: String, existing_tags: Vec<String>) -> (r:
    Vec<String>)
    ensures
        r.deep_view() == inject_tags_spec(
            given_or_resolved(given_url@, resolved_url@),
            existing_tags.deep_view(),
        ),
{
    let url = get_valid_url(given_url, resolved_url);
    let mut tags = existing_tags;
    apply_tag_step(&mut tags, url.as_str(), "youtube.com", "youtube");
    apply_tag_step(&mut tags, url.as_str(), "youtu.be", "youtube");
    apply_tag_step(&mut tags, url.as_str(), "github.com", "github");
    apply_tag_step(&mut tags, url.as_str(), "github1s.com", "github");
    apply_tag_step(&mut tags, url.as_str(), "twitter.com", "twitter");
    apply_tag_step(&mut tags, url.as_str(), "instagram.com", "instagram");
    let ghost t6 = tags.deep_view();
    if vec_has_tag(&tags, "github") {
        tags.push(String::from_str("tech"));
        proof {
            assert(tags.deep_view() =~= t6.push("tech"@));
        }
    }
    let ghost t7 = tags.deep_view();
    if tags.len() == 0 {
        tags.push(String::from_str("article"));
        proof {
            assert(tags.deep_view() =~= t7.push("article"@));
        }
    }
    tags
}

} // verus!

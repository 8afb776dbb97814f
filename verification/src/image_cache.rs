//! Where images are kept.
use crate::text;
use vstd::prelude::*;
use vstd::utf8::*;

verus! {

/// The directory that images are kept in.
pub const CACHE_DIR: &'static str = "/var/cache/nocturned/images";

/// The position of the last slash, or -1 where there is none.
pub open spec fn last_slash(s: Seq<char>) -> int
    decreases s.len(),
{
    if s.len() == 0 {
        -1
    } else if s.last() == '/' {
        s.len() - 1
    } else {
        last_slash(s.drop_last())
    }
}

/// What follows the last slash.
pub open spec fn last_segment(s: Seq<char>) -> Seq<char> {
    s.skip(last_slash(s) + 1)
}

/// What comes before the last slash.
pub open spec fn before_last_segment(s: Seq<char>) -> Seq<char> {
    s.take(last_slash(s))
}

/// Where the last slash is, and that none follows it.
pub proof fn lemma_last_slash(s: Seq<char>)
    ensures
        -1 <= last_slash(s) < s.len(),
        last_slash(s) >= 0 ==> s[last_slash(s)] == '/',
        forall|k: int| last_slash(s) < k < s.len() ==> s[k] != '/',
    decreases s.len(),
{
    if s.len() > 0 && s.last() != '/' {
        lemma_last_slash(s.drop_last());
        let i = last_slash(s);
        assert forall|k: int| i < k < s.len() implies s[k] != '/' by {
            if k < s.len() - 1 {
                assert(s.drop_last()[k] == s[k]);
            }
        }
    }
}

proof fn lemma_last_slash_is(s: Seq<char>, i: int)
    requires
        -1 <= i < s.len(),
        i >= 0 ==> s[i] == '/',
        forall|k: int| i < k < s.len() ==> s[k] != '/',
    ensures
        last_slash(s) == i,
{
    lemma_last_slash(s);
    let p = last_slash(s);
    if p > i {
        assert(s[p] != '/');
    }
    if i > p {
        assert(s[i] != '/');
    }
}

/// Whether an image is served by the network that puts the language at the end of its addresses.
pub open spec fn is_cdn(url: Seq<char>) -> bool {
    text::holds(url, "spotifycdn.com"@)
}

/// The name under which the image at an address is kept: its last segment, or the one before where
/// the last one is the short code of a language.
pub open spec fn image_id(url: Seq<char>) -> Seq<char> {
    let last = last_segment(url);
    if is_cdn(url) && last_slash(url) >= 0 && encode_utf8(last).len() <= 3 {
        last_segment(before_last_segment(url))
    } else {
        last
    }
}

/// The store of images.
#[derive(Clone, Copy, Debug, PartialEq, Eq, Structural)]
pub struct ImageCache {}

fn find_last_slash(chars: &Vec<char>, to: usize) -> (r: Option<usize>)
    requires
        to <= chars@.len(),
    ensures
        match r {
            Some(i) => last_slash(chars@.take(to as int)) == i,
            None => last_slash(chars@.take(to as int)) == -1,
        },
{
    let ghost s = chars@.take(to as int);
    let mut i: usize = to;
    while i > 0
        invariant
            i <= to <= chars@.len(),
            s == chars@.take(to as int),
            forall|k: int| i <= k < to ==> s[k] != '/',
        decreases i,
    {
        if chars[i - 1] == '/' {
            proof {
                lemma_last_slash_is(s, i - 1);
            }
            return Some(i - 1);
        }
        i -= 1;
    }
    proof {
        lemma_last_slash_is(s, -1);
    }
    None
}

impl ImageCache {
    /// The file that the image at an address is kept in.
    pub fn get_cache_path(&self, url: &str) -> (r: String)
        ensures
            r@ == CACHE_DIR@ + "/"@ + image_id(url@),
    {
        let chars = text::chars_of(url);
        assert(chars@.take(chars@.len() as int) =~= url@);
        let cdn = text::contains(url, "spotifycdn.com");
        let mut path = text::joined(CACHE_DIR, "/");
        let slash = find_last_slash(&chars, chars.len());
        proof {
            lemma_last_slash(url@);
        }
        let from: usize = match slash {
            Some(i) => i + 1,
            None => 0,
        };
        let last = text::text_of(&chars, from, chars.len());
        assert(last@ =~= last_segment(url@));
        let at_end = last.as_str().as_bytes().len() <= 3;
        match slash {
            Some(i) if cdn && at_end => {
                let ghost head = before_last_segment(url@);
                assert(chars@.take(i as int) =~= head);
                proof {
                    lemma_last_slash(head);
                }
                let start: usize = match find_last_slash(&chars, i) {
                    Some(j) => j + 1,
                    None => 0,
                };
                let id = text::text_of(&chars, start, i);
                assert(id@ =~= last_segment(head));
                path.append(id.as_str());
            },
            _ => {
                path.append(last.as_str());
            },
        }
        path
    }
}

/// An image is kept under the same name whatever the language at the end of its address.
pub proof fn law_language_does_not_matter(base: Seq<char>, language: Seq<char>)
    requires
        is_cdn(base),
        encode_utf8(last_segment(base)).len() > 3,
        encode_utf8(language).len() <= 3,
        forall|k: int| 0 <= k < language.len() ==> language[k] != '/',
    ensures
        image_id(base + seq!['/'] + language) == image_id(base),
{
    let url = base + seq!['/'] + language;
    lemma_last_slash_is(url, base.len() as int);
    assert(last_segment(url) =~= language);
    assert(before_last_segment(url) =~= base);
    let i = choose|i: int| text::occurs_at(base, "spotifycdn.com"@, i);
    assert(url.subrange(i, i + "spotifycdn.com"@.len()) =~= base.subrange(
        i,
        i + "spotifycdn.com"@.len(),
    ));
    assert(text::occurs_at(url, "spotifycdn.com"@, i));
}

/// The name of an image holds no slash, so that its file stands in the directory of the images.
pub proof fn law_image_name_has_no_slash(url: Seq<char>)
    ensures
        forall|k: int| 0 <= k < image_id(url).len() ==> image_id(url)[k] != '/',
{
    lemma_last_slash(url);
    lemma_last_slash(before_last_segment(url));
}

/// An image is kept under what stands behind the last slash of its address, or under the whole of
/// one without a slash, unless that is the short code of a language.
pub proof fn law_image_is_kept_under_its_last_segment(base: Seq<char>, name: Seq<char>)
    requires
        forall|k: int| 0 <= k < name.len() ==> name[k] != '/',
    ensures
        !is_cdn(base + seq!['/'] + name) || encode_utf8(name).len() > 3 ==> image_id(
            base + seq!['/'] + name,
        ) == name,
        image_id(name) == name,
{
    let url = base + seq!['/'] + name;
    assert(url[base.len() as int] == '/');
    lemma_last_slash_is(url, base.len() as int);
    assert(last_segment(url) =~= name);
    lemma_last_slash_is(name, -1);
    assert(last_segment(name) =~= name);
}

} // verus!

//! The video link resolver: turning a link of a post into a canonical,
//! downloadable video page URL, or rejecting it as not a video.
//!
//! Rules, in order: a link on the legacy video host is rewritten around its
//! `fid` query parameter; a link that already is a canonical `tv/show` page
//! passes through unchanged; anything else is not a video. A legacy link
//! whose `fid` cannot be extracted is a malformed video link, reported as an
//! error rather than treated as an ordinary reference.

use vstd::prelude::*;

use crate::text::spec_starts_with;
use crate::text::str_starts_with;

verus! {

/// One decoded query pair of a URL.
pub struct QueryParam {
    pub key: String,
    pub value: String,
}

impl DeepView for QueryParam {
    type V = (Seq<char>, Seq<char>);

    open spec fn deep_view(&self) -> (Seq<char>, Seq<char>) {
        (self.key@, self.value@)
    }
}

/// The decoded query pairs of `url`, in order, when `url` parses as an
/// absolute URL; `None` when it does not.
pub uninterp spec fn url_query_pairs(url: Seq<char>) -> Option<Seq<(Seq<char>, Seq<char>)>>;

/// Relies on url::Url::parse and url::Url::query_pairs: parsing an absolute
/// URL and percent-decoding its query string as `key=value` pairs depend on
/// the URL text alone.
#[verifier::external_body]
fn parse_query_pairs(url: &str) -> (r: Option<Vec<QueryParam>>)
    ensures
        r matches Some(v) ==> url_query_pairs(url@) == Some(v.deep_view()),
        r is None ==> url_query_pairs(url@) is None,
{
    match url::Url::parse(url) {
        Ok(u) => Some(
            u.query_pairs().map(
                |p: (std::borrow::Cow<str>, std::borrow::Cow<str>)| QueryParam {
                    key: p.0.into_owned(),
                    value: p.1.into_owned(),
                },
            ).collect(),
        ),
        Err(_) => None,
    }
}

/// The value of the first pair whose key is `key`.
pub open spec fn first_value_for(pairs: Seq<(Seq<char>, Seq<char>)>, key: Seq<char>) -> Option<
    Seq<char>,
>
    decreases pairs.len(),
{
    if pairs.len() == 0 {
        None
    } else if pairs[0].0 == key {
        Some(pairs[0].1)
    } else {
        first_value_for(pairs.drop_first(), key)
    }
}

proof fn lemma_first_value_skip(pairs: Seq<(Seq<char>, Seq<char>)>, key: Seq<char>, i: int)
    requires
        0 <= i <= pairs.len(),
        forall|j: int| 0 <= j < i ==> pairs[j].0 != key,
    ensures
        first_value_for(pairs, key) == first_value_for(pairs.skip(i), key),
    decreases i,
{
    if i > 0 {
        assert(pairs.skip(i) =~= pairs.drop_first().skip(i - 1));
        lemma_first_value_skip(pairs.drop_first(), key, i - 1);
    } else {
        assert(pairs.skip(0) =~= pairs);
    }
}

/// The value of the first pair named `key`, searching in order.
fn find_param(pairs: &Vec<QueryParam>, key: &String) -> (r: Option<String>)
    ensures
        r.deep_view() == first_value_for(pairs.deep_view(), key@),
{
    let ghost pv = pairs.deep_view();
    let mut i: usize = 0;
    while i < pairs.len()
        invariant
            i <= pairs.len(),
            pv == pairs.deep_view(),
            forall|j: int| 0 <= j < i ==> pv[j].0 != key@,
        decreases pairs.len() - i,
    {
        if pairs[i].key == *key {
            proof {
                lemma_first_value_skip(pv, key@, i as int);
                assert(pv.skip(i as int)[0] == pv[i as int]);
            }
            return Some(pairs[i].value.clone());
        }
        i = i + 1;
    }
    proof {
        lemma_first_value_skip(pv, key@, pairs.len() as int);
        assert(pv.skip(pairs.len() as int) =~= Seq::<(Seq<char>, Seq<char>)>::empty());
    }
    None
}

/// How one link URL resolves.
pub enum VideoResolution {
    /// A video, with its canonical video page URL.
    Video(Seq<char>),
    /// An ordinary reference, not a downloadable asset.
    NotVideo,
    /// A legacy video link whose `fid` cannot be extracted.
    Malformed,
}

/// The resolver's rules over the URL text.
pub open spec fn spec_resolve_video(url: Seq<char>) -> VideoResolution {
    if spec_starts_with(url, "https://video.weibo.com"@) {
        match url_query_pairs(url) {
            Some(pairs) => match first_value_for(pairs, "fid"@) {
                Some(fid) => VideoResolution::Video(
                    "https://weibo.com/tv/show/"@ + fid + "?from=old_pc_videoshow"@,
                ),
                None => VideoResolution::Malformed,
            },
            None => VideoResolution::Malformed,
        }
    } else if spec_starts_with(url, "https://weibo.com/tv/show/"@) {
        VideoResolution::Video(url)
    } else {
        VideoResolution::NotVideo
    }
}

/// A legacy video link without a usable `fid` query parameter.
#[derive(Clone, Copy, Debug, PartialEq, Eq, Structural)]
pub struct VideoLinkError;

/// Resolves one link URL: `Ok(Some(v))` with the canonical video page URL
/// when the link is a video, `Ok(None)` when it is an ordinary reference,
/// and an error when it is a malformed video link.
pub fn resolve_video(url: &str) -> (r: Result<Option<String>, VideoLinkError>)
    ensures
        match r {
            Ok(Some(v)) => spec_resolve_video(url@) == VideoResolution::Video(v@),
            Ok(None) => spec_resolve_video(url@) is NotVideo,
            Err(_) => spec_resolve_video(url@) is Malformed,
        },
{
    if str_starts_with(url, "https://video.weibo.com") {
        match parse_query_pairs(url) {
            Some(pairs) => {
                let needle = String::from_str("fid");
                match find_param(&pairs, &needle) {
                    Some(fid) => {
                        let mut s = String::from_str("https://weibo.com/tv/show/");
                        s.append(fid.as_str());
                        s.append("?from=old_pc_videoshow");
                        proof {
                            assert(s@ =~= "https://weibo.com/tv/show/"@ + fid@
                                + "?from=old_pc_videoshow"@);
                        }
                        Ok(Some(s))
                    },
                    None => Err(VideoLinkError),
                }
            },
            None => Err(VideoLinkError),
        }
    } else if str_starts_with(url, "https://weibo.com/tv/show/") {
        Ok(Some(String::from_str(url)))
    } else {
        Ok(None)
    }
}

} // verus!

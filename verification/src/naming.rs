//! Deterministic names: the archive directory stem of a post, the asset URLs
//! and the filenames inside the directory.

use vstd::prelude::*;

use crate::post::PostView;
use crate::post::WeiboPost;
use crate::text::dec_digits;
use crate::text::padded2;
use crate::text::two_digit;
use crate::text::u64_to_dec;

verus! {

/// The `<YYYYMMDD>-<post id>-<author name>` stem of a post's directory and
/// filenames.
pub open spec fn prefix_chars(p: PostView) -> Seq<char> {
    p.created_at.compact_date_chars() + "-"@ + dec_digits(p.id as nat) + "-"@
        + p.user.screen_name
}

/// The asset URL an image is fetched from.
pub open spec fn image_url_chars(pic_id: Seq<char>) -> Seq<char> {
    "https://wx2.sinaimg.cn/large/"@ + pic_id + ".jpg"@
}

/// The filename of the `n`-th image, numbered from 1 in list order.
pub open spec fn image_filename_chars(prefix: Seq<char>, n: nat) -> Seq<char> {
    prefix + "-img"@ + padded2(n) + ".jpg"@
}

/// The filename stem handed to the video helper for the link at 1-based
/// position `n` of the link list.
pub open spec fn video_filename_chars(prefix: Seq<char>, n: nat) -> Seq<char> {
    prefix + "-vid"@ + padded2(n)
}

/// The filename of the text manifest.
pub open spec fn content_filename_chars(prefix: Seq<char>) -> Seq<char> {
    prefix + "-content.txt"@
}

/// The canonical mobile URL of the post, written in the manifest.
pub open spec fn post_url_chars(id: u64) -> Seq<char> {
    "https://m.weibo.cn/status/"@ + dec_digits(id as nat)
}

impl WeiboPost {
    /// The deterministic directory-name stem of this post.
    pub fn gen_prefix(&self) -> (r: String)
        ensures
            r@ == prefix_chars(self.deep_view()),
    {
        let mut s = self.created_at.format_compact_date();
        s.append("-");
        let ids = u64_to_dec(self.id);
        s.append(ids.as_str());
        s.append("-");
        s.append(self.user.screen_name.as_str());
        proof {
            assert(s@ =~= prefix_chars(self.deep_view()));
        }
        s
    }
}

/// The asset URL of one image.
pub fn image_url(pic_id: &str) -> (r: String)
    ensures
        r@ == image_url_chars(pic_id@),
{
    let mut s = String::from_str("https://wx2.sinaimg.cn/large/");
    s.append(pic_id);
    s.append(".jpg");
    proof {
        assert(s@ =~= image_url_chars(pic_id@));
    }
    s
}

/// The filename of the `n`-th image.
pub fn image_filename(prefix: &str, n: u64) -> (r: String)
    ensures
        r@ == image_filename_chars(prefix@, n as nat),
{
    let mut s = String::from_str(prefix);
    s.append("-img");
    let d = two_digit(n);
    s.append(d.as_str());
    s.append(".jpg");
    proof {
        assert(s@ =~= image_filename_chars(prefix@, n as nat));
    }
    s
}

/// The filename stem of the video at 1-based link position `n`.
pub fn video_filename(prefix: &str, n: u64) -> (r: String)
    ensures
        r@ == video_filename_chars(prefix@, n as nat),
{
    let mut s = String::from_str(prefix);
    s.append("-vid");
    let d = two_digit(n);
    s.append(d.as_str());
    proof {
        assert(s@ =~= video_filename_chars(prefix@, n as nat));
    }
    s
}

/// The filename of the text manifest.
pub fn content_filename(prefix: &str) -> (r: String)
    ensures
        r@ == content_filename_chars(prefix@),
{
    let mut s = String::from_str(prefix);
    s.append("-content.txt");
    proof {
        assert(s@ =~= content_filename_chars(prefix@));
    }
    s
}

/// The canonical mobile URL of a post.
pub fn post_url(id: u64) -> (r: String)
    ensures
        r@ == post_url_chars(id),
{
    let mut s = String::from_str("https://m.weibo.cn/status/");
    let ids = u64_to_dec(id);
    s.append(ids.as_str());
    proof {
        assert(s@ =~= post_url_chars(id));
    }
    s
}

} // verus!

//! The per-post text manifest: a fixed-order rendering of the post's
//! canonical URL, author, creation time, non-empty link URLs, and raw text.

use vstd::prelude::*;

use crate::naming::post_url;
use crate::naming::post_url_chars;
use crate::post::PostView;
use crate::post::UrlView;
use crate::post::WeiboPost;

verus! {

/// The manifest line of one link: empty-URL entries produce nothing.
pub open spec fn link_line(u: UrlView) -> Seq<char> {
    if u.url.len() == 0 {
        Seq::empty()
    } else {
        "link: "@ + u.url + "\n"@
    }
}

/// The manifest lines of a link list, in original order.
pub open spec fn link_lines(urls: Seq<UrlView>) -> Seq<char>
    decreases urls.len(),
{
    if urls.len() == 0 {
        Seq::empty()
    } else {
        link_line(urls[0]) + link_lines(urls.drop_first())
    }
}

/// The whole manifest: `url:`, `user:` and `created_at:` lines, one `link:`
/// line per non-empty link URL in original order, a blank line, then the raw
/// post text.
pub open spec fn manifest_chars(p: PostView) -> Seq<char> {
    "url: "@ + post_url_chars(p.id) + "\n"@ + "user: "@ + p.user.screen_name + "\n"@
        + "created_at: "@ + p.created_at.rfc3339_chars() + "\n"@ + (match p.urls {
        Some(us) => link_lines(us),
        None => Seq::empty(),
    }) + "\n"@ + p.text
}

proof fn lemma_link_lines_snoc(urls: Seq<UrlView>, i: int)
    requires
        0 <= i < urls.len(),
    ensures
        link_lines(urls.take(i + 1)) == link_lines(urls.take(i)) + link_line(urls[i]),
    decreases i,
{
    if i == 0 {
        assert(urls.take(0) =~= Seq::<UrlView>::empty());
        assert(urls.take(1).drop_first() =~= Seq::<UrlView>::empty());
        assert(link_lines(urls.take(1)) =~= link_line(urls[0]));
    } else {
        assert(urls.take(i + 1).drop_first() =~= urls.drop_first().take(i));
        assert(urls.take(i).drop_first() =~= urls.drop_first().take(i - 1));
        lemma_link_lines_snoc(urls.drop_first(), i - 1);
        assert(link_lines(urls.take(i + 1)) =~= link_lines(urls.take(i)) + link_line(urls[i]));
    }
}

impl WeiboPost {
    /// Renders the text manifest of this post.
    pub fn render_manifest(&self) -> (r: String)
        ensures
            r@ == manifest_chars(self.deep_view()),
    {
        let mut s = String::from_str("url: ");
        let pu = post_url(self.id);
        s.append(pu.as_str());
        s.append("\n");
        s.append("user: ");
        s.append(self.user.screen_name.as_str());
        s.append("\n");
        s.append("created_at: ");
        let ts = self.created_at.format_rfc3339();
        s.append(ts.as_str());
        s.append("\n");
        let ghost head = s@;
        match &self.urls {
            Some(urls) => {
                let ghost uv = urls.deep_view();
                let mut i: usize = 0;
                while i < urls.len()
                    invariant
                        i <= urls.len(),
                        uv == urls.deep_view(),
                        uv.len() == urls.len(),
                        s@ == head + link_lines(uv.take(i as int)),
                    decreases urls.len() - i,
                {
                    proof {
                        lemma_link_lines_snoc(uv, i as int);
                    }
                    if !urls[i].url.as_str().is_empty() {
                        s.append("link: ");
                        s.append(urls[i].url.as_str());
                        s.append("\n");
                    }
                    proof {
                        assert(s@ =~= head + link_lines(uv.take(i as int + 1)));
                    }
                    i = i + 1;
                }
                proof {
                    assert(uv.take(urls.len() as int) =~= uv);
                }
            },
            None => {},
        }
        s.append("\n");
        s.append(self.text.as_str());
        proof {
            assert(s@ =~= manifest_chars(self.deep_view()));
        }
        s
    }
}

} // verus!

//! The pagination state machine of the listing phase.
//!
//! The caller requests page 1, 2, 3, ... and feeds each answered page back.
//! The first empty page ends the listing; every earlier page's posts are
//! accumulated in request order. The machine only decides; the caller does
//! the fetching and aborts the whole listing on any transport or decode
//! failure, returning no partial result.

use vstd::prelude::*;

use crate::post::PostView;
use crate::post::WeiboPost;

verus! {

/// Mathematical image of `Pagination`.
#[verifier::ext_equal]
pub struct PaginationView {
    pub posts: Seq<PostView>,
    pub next_page: int,
    pub done: bool,
}

/// A paginated listing in progress.
pub struct Pagination {
    pub posts: Vec<WeiboPost>,
    pub next_page: u64,
    pub done: bool,
}

impl DeepView for Pagination {
    type V = PaginationView;

    open spec fn deep_view(&self) -> PaginationView {
        PaginationView {
            posts: self.posts.deep_view(),
            next_page: self.next_page as int,
            done: self.done,
        }
    }
}

/// The starting state: no posts, page 1 to be requested first.
pub open spec fn initial_pagination() -> PaginationView {
    PaginationView { posts: Seq::empty(), next_page: 1, done: false }
}

/// One answered page: an empty page ends the listing with the posts as they
/// stand; a non-empty page is appended in order and the page number advances
/// by one. A finished listing ignores further pages.
pub open spec fn spec_accept_page(s: PaginationView, page: Seq<PostView>) -> PaginationView {
    if s.done {
        s
    } else if page.len() == 0 {
        PaginationView { done: true, ..s }
    } else {
        PaginationView { posts: s.posts + page, next_page: s.next_page + 1, done: false }
    }
}

impl Pagination {
    /// Page numbers start at 1 and each accepted non-empty page advances
    /// them by one, so the next page number never runs ahead of the posts
    /// accumulated so far.
    pub open spec fn wf(self) -> bool {
        1 <= self.next_page && (self.done || self.next_page as int <= self.posts@.len() + 1)
    }

    /// A fresh listing.
    pub fn new() -> (r: Pagination)
        ensures
            r.wf(),
            r.deep_view() == initial_pagination(),
    {
        let r = Pagination { posts: Vec::new(), next_page: 1, done: false };
        proof {
            assert(r.posts.deep_view() =~= Seq::<PostView>::empty());
            assert(r.deep_view() =~~= initial_pagination());
        }
        r
    }

    /// The page number to request next; `None` exactly once the listing is
    /// done.
    pub fn next_request(&self) -> (r: Option<u64>)
        ensures
            r matches Some(p) ==> !self.done && p == self.next_page,
            r is None <==> self.done,
    {
        if self.done {
            None
        } else {
            Some(self.next_page)
        }
    }

    /// Feeds the posts of the answered page into the listing.
    pub fn accept_page(&mut self, page: Vec<WeiboPost>)
        requires
            old(self).wf(),
            !old(self).done,
            old(self).next_page < u64::MAX,
        ensures
            final(self).wf(),
            final(self).deep_view() == spec_accept_page(old(self).deep_view(), page.deep_view()),
    {
        let ghost pre = *self;
        let ghost pagev = page.deep_view();
        if page.len() == 0 {
            self.done = true;
            proof {
                assert(pagev =~= Seq::<PostView>::empty());
                assert(self.deep_view() =~~= spec_accept_page(pre.deep_view(), pagev));
            }
        } else {
            let ghost pre_posts = self.posts;
            let mut page = page;
            self.posts.append(&mut page);
            self.next_page = self.next_page + 1;
            proof {
                assert forall|k: int|
                    0 <= k < self.posts.deep_view().len() implies self.posts.deep_view()[k] == (
                pre_posts.deep_view() + pagev)[k] by {
                    if k < pre_posts@.len() {
                        assert(self.posts@[k] == pre_posts@[k]);
                    }
                }
                assert(self.posts.deep_view() =~= pre_posts.deep_view() + pagev);
                assert(self.deep_view() =~~= spec_accept_page(pre.deep_view(), pagev));
            }
        }
    }
}

/// Feeding a sequence of answered pages, in order.
pub open spec fn feed_pages(s: PaginationView, pages: Seq<Seq<PostView>>) -> PaginationView
    decreases pages.len(),
{
    if pages.len() == 0 {
        s
    } else {
        feed_pages(spec_accept_page(s, pages[0]), pages.drop_first())
    }
}

/// All posts of `pages`, concatenated in page order.
pub open spec fn concat_pages(pages: Seq<Seq<PostView>>) -> Seq<PostView>
    decreases pages.len(),
{
    if pages.len() == 0 {
        Seq::empty()
    } else {
        pages[0] + concat_pages(pages.drop_first())
    }
}

proof fn lemma_feed_pages_done(s: PaginationView, pages: Seq<Seq<PostView>>)
    requires
        s.done,
    ensures
        feed_pages(s, pages) == s,
    decreases pages.len(),
{
    if pages.len() > 0 {
        lemma_feed_pages_done(s, pages.drop_first());
    }
}

proof fn lemma_feed_pages_run(s: PaginationView, pages: Seq<Seq<PostView>>, n: int)
    requires
        !s.done,
        0 <= n < pages.len(),
        forall|i: int| 0 <= i < n ==> pages[i].len() > 0,
        pages[n].len() == 0,
    ensures
        feed_pages(s, pages).done,
        feed_pages(s, pages).posts == s.posts + concat_pages(pages.take(n)),
        feed_pages(s, pages).next_page == s.next_page + n,
    decreases pages.len(),
{
    if n == 0 {
        lemma_feed_pages_done(spec_accept_page(s, pages[0]), pages.drop_first());
        assert(pages.take(0) =~= Seq::<Seq<PostView>>::empty());
        assert(feed_pages(s, pages).posts =~= s.posts + concat_pages(pages.take(0)));
    } else {
        let s1 = spec_accept_page(s, pages[0]);
        assert forall|i: int| 0 <= i < n - 1 implies pages.drop_first()[i].len() > 0 by {
            assert(pages.drop_first()[i] == pages[i + 1]);
        }
        assert(pages.drop_first()[n - 1] == pages[n]);
        lemma_feed_pages_run(s1, pages.drop_first(), n - 1);
        assert(pages.take(n)[0] == pages[0]);
        assert(pages.take(n).drop_first() =~= pages.drop_first().take(n - 1));
        assert((s.posts + pages[0]) + concat_pages(pages.drop_first().take(n - 1)) =~= s.posts + (
        pages[0] + concat_pages(pages.drop_first().take(n - 1))));
    }
}

/// Pagination termination: when the first `n` pages are non-empty and page
/// `n` (numbering from 0) is empty, the listing consumes exactly those
/// pages. It ends done with the `n` non-empty pages' posts concatenated in
/// page order, the last page number requested was `n + 1`, and any pages
/// beyond the empty one are never taken up.
pub proof fn lemma_pagination_consumes_exactly(pages: Seq<Seq<PostView>>, n: int)
    requires
        0 <= n < pages.len(),
        forall|i: int| 0 <= i < n ==> pages[i].len() > 0,
        pages[n].len() == 0,
    ensures
        feed_pages(initial_pagination(), pages).done,
        feed_pages(initial_pagination(), pages).posts == concat_pages(pages.take(n)),
        feed_pages(initial_pagination(), pages).next_page == n + 1,
{
    lemma_feed_pages_run(initial_pagination(), pages, n);
    assert(initial_pagination().posts + concat_pages(pages.take(n)) =~= concat_pages(
        pages.take(n),
    ));
}

} // verus!

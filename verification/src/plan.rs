//! The per-post download plan: the ordered steps a run performs for one
//! post, and the idempotent skip when the post's directory already exists.

use vstd::prelude::*;

use crate::manifest::manifest_chars;
use crate::naming::content_filename;
use crate::naming::content_filename_chars;
use crate::naming::image_filename;
use crate::naming::image_filename_chars;
use crate::naming::image_url;
use crate::naming::image_url_chars;
use crate::naming::prefix_chars;
use crate::naming::video_filename;
use crate::naming::video_filename_chars;
use crate::post::PostView;
use crate::post::UrlView;
use crate::post::WeiboPost;
use crate::video::resolve_video;
use crate::video::spec_resolve_video;
use crate::video::VideoLinkError;
use crate::video::VideoResolution;

verus! {

/// One step of archiving a post, in the order the run performs them.
pub enum ArchiveStep {
    /// Create the post's directory (and parents).
    CreateDir { name: String },
    /// Fetch the image at `url` and write its bytes to `filename`.
    FetchImage { url: String, filename: String },
    /// Invoke the video helper for `url` with output stem `filename`.
    FetchVideo { url: String, filename: String },
    /// Write the text manifest `body` to `filename`.
    WriteManifest { filename: String, body: String },
}

/// Mathematical image of an `ArchiveStep`.
#[verifier::ext_equal]
pub enum StepView {
    CreateDir { name: Seq<char> },
    FetchImage { url: Seq<char>, filename: Seq<char> },
    FetchVideo { url: Seq<char>, filename: Seq<char> },
    WriteManifest { filename: Seq<char>, body: Seq<char> },
}

impl DeepView for ArchiveStep {
    type V = StepView;

    open spec fn deep_view(&self) -> StepView {
        match self {
            ArchiveStep::CreateDir { name } => StepView::CreateDir { name: name@ },
            ArchiveStep::FetchImage { url, filename } => StepView::FetchImage {
                url: url@,
                filename: filename@,
            },
            ArchiveStep::FetchVideo { url, filename } => StepView::FetchVideo {
                url: url@,
                filename: filename@,
            },
            ArchiveStep::WriteManifest { filename, body } => StepView::WriteManifest {
                filename: filename@,
                body: body@,
            },
        }
    }
}

/// The image steps: one fetch per picture id, in list order, filenames
/// numbered from 1.
pub open spec fn image_steps(prefix: Seq<char>, pics: Seq<Seq<char>>) -> Seq<StepView> {
    Seq::new(
        pics.len(),
        |i: int| StepView::FetchImage {
            url: image_url_chars(pics[i]),
            filename: image_filename_chars(prefix, (i + 1) as nat),
        },
    )
}

/// The video steps of the links, the head link numbered `k + 1`: one fetch
/// per link that resolves to a video, numbered by its position in the link
/// list, not renumbered per match.
pub open spec fn video_steps_from(prefix: Seq<char>, urls: Seq<UrlView>, k: nat) -> Seq<StepView>
    decreases urls.len(),
{
    if urls.len() == 0 {
        Seq::empty()
    } else {
        (match spec_resolve_video(urls[0].url) {
            VideoResolution::Video(v) => seq![
                StepView::FetchVideo { url: v, filename: video_filename_chars(prefix, k + 1) },
            ],
            _ => Seq::empty(),
        }) + video_steps_from(prefix, urls.drop_first(), k + 1)
    }
}

/// Some link is a malformed video link.
pub open spec fn has_malformed_link(urls: Seq<UrlView>) -> bool {
    exists|i: int|
        0 <= i < urls.len() && spec_resolve_video(urls[i].url) is Malformed
}

/// The malformed-link test over the optional link list.
pub open spec fn post_has_malformed_link(p: PostView) -> bool {
    match p.urls {
        Some(us) => has_malformed_link(us),
        None => false,
    }
}

/// The full step list of a post that is not yet archived: its directory,
/// its images in order, its videos in link order, then its manifest.
pub open spec fn post_steps(p: PostView) -> Seq<StepView> {
    seq![StepView::CreateDir { name: prefix_chars(p) }] + image_steps(prefix_chars(p), p.pictures)
        + (match p.urls {
        Some(us) => video_steps_from(prefix_chars(p), us, 0),
        None => Seq::empty(),
    }) + seq![
        StepView::WriteManifest {
            filename: content_filename_chars(prefix_chars(p)),
            body: manifest_chars(p),
        },
    ]
}

proof fn lemma_video_steps_snoc(prefix: Seq<char>, urls: Seq<UrlView>, i: int, k: nat)
    requires
        0 <= i < urls.len(),
    ensures
        video_steps_from(prefix, urls.take(i + 1), k) == video_steps_from(prefix, urls.take(i), k)
            + (match spec_resolve_video(urls[i].url) {
            VideoResolution::Video(v) => seq![
                StepView::FetchVideo {
                    url: v,
                    filename: video_filename_chars(prefix, (k + i + 1) as nat),
                },
            ],
            _ => Seq::empty(),
        }),
    decreases i,
{
    if i == 0 {
        assert(urls.take(0) =~= Seq::<UrlView>::empty());
        assert(urls.take(1).drop_first() =~= Seq::<UrlView>::empty());
        assert(urls.take(1)[0] == urls[0]);
        assert(video_steps_from(prefix, Seq::<UrlView>::empty(), (k + 1) as nat)
            == Seq::<StepView>::empty());
        assert(video_steps_from(prefix, urls.take(1), k) =~~= video_steps_from(
            prefix,
            urls.take(0),
            k,
        ) + (match spec_resolve_video(urls[0].url) {
            VideoResolution::Video(v) => seq![
                StepView::FetchVideo { url: v, filename: video_filename_chars(prefix, k + 1) },
            ],
            _ => Seq::empty(),
        }));
    } else {
        assert(urls.take(i + 1).drop_first() =~= urls.drop_first().take(i));
        assert(urls.take(i).drop_first() =~= urls.drop_first().take(i - 1));
        assert(urls.take(i + 1)[0] == urls[0]);
        assert(urls.take(i)[0] == urls[0]);
        assert(urls.drop_first()[i - 1] == urls[i]);
        lemma_video_steps_snoc(prefix, urls.drop_first(), i - 1, (k + 1) as nat);
        assert(video_steps_from(prefix, urls.take(i + 1), k) =~~= video_steps_from(
            prefix,
            urls.take(i),
            k,
        ) + (match spec_resolve_video(urls[i].url) {
            VideoResolution::Video(v) => seq![
                StepView::FetchVideo {
                    url: v,
                    filename: video_filename_chars(prefix, (k + i + 1) as nat),
                },
            ],
            _ => Seq::empty(),
        }));
    }
}

proof fn lemma_push_deep_view(pre: Vec<ArchiveStep>, post: Vec<ArchiveStep>, x: ArchiveStep)
    requires
        post@ == pre@.push(x),
    ensures
        post.deep_view() =~= pre.deep_view().push(x.deep_view()),
{
    assert forall|k: int|
        0 <= k < post.deep_view().len() implies post.deep_view()[k] == pre.deep_view().push(
        x.deep_view(),
    )[k] by {
        if k < pre@.len() {
            assert(post@[k] == pre@[k]);
        } else {
            assert(post@[k] == x);
        }
    }
}

impl WeiboPost {
    /// The steps one run performs for this post. An existing directory is
    /// the idempotency signal: the post is then skipped wholesale, with no
    /// steps at all. Otherwise the full step list is returned, or an error
    /// exactly when some link is a malformed video link.
    pub fn download_steps(&self, dir_exists: bool) -> (r: Result<
        Vec<ArchiveStep>,
        VideoLinkError,
    >)
        ensures
            dir_exists ==> (r matches Ok(v) && v@.len() == 0),
            !dir_exists ==> match r {
                Ok(v) => !post_has_malformed_link(self.deep_view()) && v.deep_view() == post_steps(
                    self.deep_view(),
                ),
                Err(_) => post_has_malformed_link(self.deep_view()),
            },
    {
        if dir_exists {
            return Ok(Vec::new());
        }
        let ghost pv = self.deep_view();
        let prefix = self.gen_prefix();
        let mut steps: Vec<ArchiveStep> = Vec::new();
        let step0 = ArchiveStep::CreateDir { name: prefix.clone() };
        let ghost step0g = step0;
        let ghost pre0 = steps;
        steps.push(step0);
        let ghost dir_part = seq![StepView::CreateDir { name: prefix_chars(pv) }];
        proof {
            lemma_push_deep_view(pre0, steps, step0g);
            assert(pre0.deep_view() =~= Seq::<StepView>::empty());
            assert(steps.deep_view() =~~= dir_part);
        }
        let mut i: usize = 0;
        while i < self.pictures.len()
            invariant
                i <= self.pictures.len(),
                pv == self.deep_view(),
                prefix@ == prefix_chars(pv),
                pv.pictures.len() == self.pictures.len(),
                steps.deep_view() == dir_part + image_steps(prefix@, pv.pictures.take(i as int)),
            decreases self.pictures.len() - i,
        {
            let url = image_url(self.pictures[i].as_str());
            let filename = image_filename(prefix.as_str(), (i + 1) as u64);
            let step = ArchiveStep::FetchImage { url, filename };
            let ghost stepg = step;
            let ghost pre = steps;
            steps.push(step);
            proof {
                lemma_push_deep_view(pre, steps, stepg);
                assert(pv.pictures[i as int] == self.pictures@[i as int]@);
                assert(image_steps(prefix@, pv.pictures.take(i as int + 1)) =~~= image_steps(
                    prefix@,
                    pv.pictures.take(i as int),
                ).push(stepg.deep_view()));
                assert(steps.deep_view() =~~= dir_part + image_steps(
                    prefix@,
                    pv.pictures.take(i as int + 1),
                ));
            }
            i = i + 1;
        }
        proof {
            assert(pv.pictures.take(self.pictures.len() as int) =~= pv.pictures);
        }
        let ghost img_part = dir_part + image_steps(prefix@, pv.pictures);
        match &self.urls {
            Some(urls) => {
                let ghost uv = urls.deep_view();
                let mut j: usize = 0;
                while j < urls.len()
                    invariant
                        !dir_exists,
                        j <= urls.len(),
                        pv == self.deep_view(),
                        prefix@ == prefix_chars(pv),
                        uv == urls.deep_view(),
                        pv.urls == Some(uv),
                        uv.len() == urls.len(),
                        steps.deep_view() == img_part + video_steps_from(
                            prefix@,
                            uv.take(j as int),
                            0,
                        ),
                        forall|l: int|
                            0 <= l < j ==> !(spec_resolve_video(uv[l].url) is Malformed),
                    decreases urls.len() - j,
                {
                    proof {
                        lemma_video_steps_snoc(prefix@, uv, j as int, 0);
                        assert(uv[j as int] == urls@[j as int].deep_view());
                    }
                    match resolve_video(urls[j].url.as_str()) {
                        Ok(Some(v)) => {
                            let filename = video_filename(prefix.as_str(), (j + 1) as u64);
                            let step = ArchiveStep::FetchVideo { url: v, filename };
                            let ghost stepg = step;
                            let ghost pre = steps;
                            steps.push(step);
                            proof {
                                lemma_push_deep_view(pre, steps, stepg);
                                assert(video_steps_from(prefix@, uv.take(j as int + 1), 0)
                                    =~~= video_steps_from(prefix@, uv.take(j as int), 0).push(
                                    stepg.deep_view(),
                                ));
                                assert(steps.deep_view() =~~= img_part + video_steps_from(
                                    prefix@,
                                    uv.take(j as int + 1),
                                    0,
                                ));
                            }
                        },
                        Ok(None) => {
                            proof {
                                assert(video_steps_from(prefix@, uv.take(j as int + 1), 0)
                                    =~~= video_steps_from(prefix@, uv.take(j as int), 0));
                                assert(steps.deep_view() =~~= img_part + video_steps_from(
                                    prefix@,
                                    uv.take(j as int + 1),
                                    0,
                                ));
                            }
                        },
                        Err(e) => {
                            proof {
                                assert(uv[j as int].url == urls@[j as int].url@);
                                assert(spec_resolve_video(uv[j as int].url) is Malformed);
                                assert(has_malformed_link(uv));
                            }
                            return Err(e);
                        },
                    }
                    j = j + 1;
                }
                proof {
                    assert(uv.take(urls.len() as int) =~= uv);
                }
            },
            None => {},
        }
        let filename = content_filename(prefix.as_str());
        let body = self.render_manifest();
        let step = ArchiveStep::WriteManifest { filename, body };
        let ghost stepg = step;
        let ghost pre = steps;
        steps.push(step);
        proof {
            lemma_push_deep_view(pre, steps, stepg);
            assert(steps.deep_view() =~~= post_steps(pv));
        }
        Ok(steps)
    }
}

/// The steps a run performs for one post, given the set of directories that
/// exist under the base directory when the post is looked at.
pub open spec fn run_steps_for(dirs: Set<Seq<char>>, p: PostView) -> Seq<StepView> {
    if dirs.contains(prefix_chars(p)) {
        Seq::empty()
    } else {
        post_steps(p)
    }
}

/// The directories present after a run over `posts`: each post's directory
/// exists afterwards, created by the run or already there before it.
pub open spec fn dirs_after_run(dirs: Set<Seq<char>>, posts: Seq<PostView>) -> Set<Seq<char>>
    decreases posts.len(),
{
    if posts.len() == 0 {
        dirs
    } else {
        dirs_after_run(dirs.insert(prefix_chars(posts[0])), posts.drop_first())
    }
}

/// The total number of steps a run performs over `posts`.
pub open spec fn total_run_steps(dirs: Set<Seq<char>>, posts: Seq<PostView>) -> nat
    decreases posts.len(),
{
    if posts.len() == 0 {
        0
    } else {
        run_steps_for(dirs, posts[0]).len() + total_run_steps(dirs, posts.drop_first())
    }
}

proof fn lemma_dirs_after_run_monotone(dirs: Set<Seq<char>>, posts: Seq<PostView>, d: Seq<char>)
    requires
        dirs.contains(d),
    ensures
        dirs_after_run(dirs, posts).contains(d),
    decreases posts.len(),
{
    if posts.len() > 0 {
        lemma_dirs_after_run_monotone(dirs.insert(prefix_chars(posts[0])), posts.drop_first(), d);
    }
}

proof fn lemma_dirs_after_run_has_prefixes(dirs: Set<Seq<char>>, posts: Seq<PostView>)
    ensures
        forall|i: int|
            0 <= i < posts.len() ==> dirs_after_run(dirs, posts).contains(
                prefix_chars(posts[i]),
            ),
    decreases posts.len(),
{
    if posts.len() > 0 {
        lemma_dirs_after_run_monotone(
            dirs.insert(prefix_chars(posts[0])),
            posts.drop_first(),
            prefix_chars(posts[0]),
        );
        lemma_dirs_after_run_has_prefixes(dirs.insert(prefix_chars(posts[0])), posts.drop_first());
        assert forall|i: int|
            0 <= i < posts.len() implies dirs_after_run(dirs, posts).contains(
            prefix_chars(posts[i]),
        ) by {
            if i > 0 {
                assert(posts.drop_first()[i - 1] == posts[i]);
            }
        }
    }
}

proof fn lemma_total_run_steps_zero(dirs: Set<Seq<char>>, posts: Seq<PostView>)
    requires
        forall|i: int| 0 <= i < posts.len() ==> dirs.contains(prefix_chars(posts[i])),
    ensures
        total_run_steps(dirs, posts) == 0,
    decreases posts.len(),
{
    if posts.len() > 0 {
        assert(dirs.contains(prefix_chars(posts[0])));
        assert forall|i: int|
            0 <= i < posts.drop_first().len() implies dirs.contains(
            prefix_chars(posts.drop_first()[i]),
        ) by {
            assert(posts.drop_first()[i] == posts[i + 1]);
        }
        lemma_total_run_steps_zero(dirs, posts.drop_first());
    }
}

/// Idempotence: after one run over `posts`, every target directory exists,
/// so a second run over the same posts against the same base directory
/// performs zero steps.
pub proof fn lemma_second_run_does_nothing(dirs: Set<Seq<char>>, posts: Seq<PostView>)
    ensures
        total_run_steps(dirs_after_run(dirs, posts), posts) == 0,
{
    lemma_dirs_after_run_has_prefixes(dirs, posts);
    lemma_total_run_steps_zero(dirs_after_run(dirs, posts), posts);
}

} // verus!

//! The data model: one timeline entry as fetched from the API.

use vstd::prelude::*;

use crate::datetime::DateTime;

verus! {

/// The author record embedded in a post.
pub struct WeiboUser {
    pub id: u64,
    pub screen_name: String,
    pub avatar: String,
}

/// One `{title, url}` link entry of a post; `url` may be the empty string.
pub struct WeiboUrl {
    pub title: String,
    pub url: String,
}

/// One timeline entry: text, zero or more pictures, and an optional list of
/// links. Immutable once built; the archiver only reads it.
pub struct WeiboPost {
    pub created_at: DateTime,
    pub id: u64,
    pub user: WeiboUser,
    pub text: String,
    pub pictures: Vec<String>,
    pub urls: Option<Vec<WeiboUrl>>,
}

/// Mathematical image of a `WeiboUser`.
#[verifier::ext_equal]
pub struct UserView {
    pub id: u64,
    pub screen_name: Seq<char>,
    pub avatar: Seq<char>,
}

/// Mathematical image of a `WeiboUrl`.
#[verifier::ext_equal]
pub struct UrlView {
    pub title: Seq<char>,
    pub url: Seq<char>,
}

/// Mathematical image of a `WeiboPost`.
#[verifier::ext_equal]
pub struct PostView {
    pub created_at: DateTime,
    pub id: u64,
    pub user: UserView,
    pub text: Seq<char>,
    pub pictures: Seq<Seq<char>>,
    pub urls: Option<Seq<UrlView>>,
}

impl DeepView for WeiboUser {
    type V = UserView;

    open spec fn deep_view(&self) -> UserView {
        UserView { id: self.id, screen_name: self.screen_name@, avatar: self.avatar@ }
    }
}

impl DeepView for WeiboUrl {
    type V = UrlView;

    open spec fn deep_view(&self) -> UrlView {
        UrlView { title: self.title@, url: self.url@ }
    }
}

impl DeepView for WeiboPost {
    type V = PostView;

    open spec fn deep_view(&self) -> PostView {
        PostView {
            created_at: self.created_at,
            id: self.id,
            user: self.user.deep_view(),
            text: self.text@,
            pictures: self.pictures.deep_view(),
            urls: self.urls.deep_view(),
        }
    }
}

} // verus!

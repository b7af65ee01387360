//! The post data model: one upstream listing entry, its mathematical view,
//! and the record shape of one entry of the endpoint's JSON answer.

use vstd::prelude::*;

verus! {

/// One candidate preview image, with its pixel dimensions.
pub struct SourceImage {
    pub url: Vec<u8>,
    pub width: u32,
    pub height: u32,
}

/// The mathematical view of a candidate preview image.
pub struct ImageView {
    pub url: Seq<u8>,
    pub width: u32,
    pub height: u32,
}

impl View for SourceImage {
    type V = ImageView;

    open spec fn view(&self) -> ImageView {
        ImageView { url: self.url@, width: self.width, height: self.height }
    }
}

/// The ordered candidate images a post may carry.
pub struct Preview {
    pub images: Vec<SourceImage>,
}

impl View for Preview {
    type V = Seq<ImageView>;

    open spec fn view(&self) -> Seq<ImageView> {
        Seq::new(self.images@.len(), |i: int| self.images@[i]@)
    }
}

/// One post of the upstream listing.  Text fields hold UTF-8 bytes; the
/// creation timestamp is kept as the decimal text the upstream sent, since
/// the library never computes on it.  Of the media indicator only presence
/// is significant, so only presence is kept.
pub struct Post {
    pub title: Vec<u8>,
    pub url: Vec<u8>,
    pub ups: i32,
    pub downs: i32,
    pub num_comments: i32,
    pub over_18: bool,
    pub author: Vec<u8>,
    pub is_video: bool,
    pub has_secure_media: bool,
    pub thumbnail: Vec<u8>,
    pub created_utc: Vec<u8>,
    pub preview: Option<Preview>,
    pub selftext: Vec<u8>,
    pub snippets: Vec<Vec<u8>>,
}

/// The mathematical view of a post.
pub struct PostView {
    pub title: Seq<u8>,
    pub url: Seq<u8>,
    pub ups: i32,
    pub downs: i32,
    pub num_comments: i32,
    pub over_18: bool,
    pub author: Seq<u8>,
    pub is_video: bool,
    pub has_secure_media: bool,
    pub thumbnail: Seq<u8>,
    pub created_utc: Seq<u8>,
    pub preview: Option<Seq<ImageView>>,
    pub selftext: Seq<u8>,
    pub snippets: Seq<Seq<u8>>,
}

impl View for Post {
    type V = PostView;

    open spec fn view(&self) -> PostView {
        PostView {
            title: self.title@,
            url: self.url@,
            ups: self.ups,
            downs: self.downs,
            num_comments: self.num_comments,
            over_18: self.over_18,
            author: self.author@,
            is_video: self.is_video,
            has_secure_media: self.has_secure_media,
            thumbnail: self.thumbnail@,
            created_utc: self.created_utc@,
            preview: match self.preview {
                Some(p) => Some(p@),
                None => None,
            },
            selftext: self.selftext@,
            snippets: self.snippets.deep_view(),
        }
    }
}

/// One entry of the endpoint's JSON answer: the surviving post's fields plus
/// the resolved display image.
pub struct MemeItem {
    pub title: Vec<u8>,
    pub url: Vec<u8>,
    pub author: Vec<u8>,
    pub over_18: bool,
    pub thumbnail: Vec<u8>,
    pub image: Option<Vec<u8>>,
    pub created_utc: Vec<u8>,
    pub ups: i32,
    pub downs: i32,
    pub num_comments: i32,
    pub snippets: Vec<Vec<u8>>,
    pub is_video: bool,
}

/// The mathematical view of an answer entry.
pub struct ItemView {
    pub title: Seq<u8>,
    pub url: Seq<u8>,
    pub author: Seq<u8>,
    pub over_18: bool,
    pub thumbnail: Seq<u8>,
    pub image: Option<Seq<u8>>,
    pub created_utc: Seq<u8>,
    pub ups: i32,
    pub downs: i32,
    pub num_comments: i32,
    pub snippets: Seq<Seq<u8>>,
    pub is_video: bool,
}

impl View for MemeItem {
    type V = ItemView;

    open spec fn view(&self) -> ItemView {
        ItemView {
            title: self.title@,
            url: self.url@,
            author: self.author@,
            over_18: self.over_18,
            thumbnail: self.thumbnail@,
            image: match self.image {
                Some(ref v) => Some(v@),
                None => None,
            },
            created_utc: self.created_utc@,
            ups: self.ups,
            downs: self.downs,
            num_comments: self.num_comments,
            snippets: self.snippets.deep_view(),
            is_video: self.is_video,
        }
    }
}

/// The views of a sequence of posts.
pub open spec fn views_of_posts(v: Seq<Post>) -> Seq<PostView> {
    v.map_values(|p: Post| p@)
}

} // verus!

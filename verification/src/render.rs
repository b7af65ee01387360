//! Assembling the endpoint's answer: one record per surviving post, with
//! the display image resolved again from the same post at answer time.

use vstd::prelude::*;

use crate::image::{resolve_image, spec_resolve_image};
use crate::post::{views_of_posts, ItemView, MemeItem, Post, PostView};
use crate::text::copy_bytes;

verus! {

/// The answer record a post yields.
pub open spec fn spec_render(p: PostView) -> ItemView {
    ItemView {
        title: p.title,
        url: p.url,
        author: p.author,
        over_18: p.over_18,
        thumbnail: p.thumbnail,
        image: spec_resolve_image(p),
        created_utc: p.created_utc,
        ups: p.ups,
        downs: p.downs,
        num_comments: p.num_comments,
        snippets: p.snippets,
        is_video: p.is_video,
    }
}

/// The views of a sequence of answer records.
pub open spec fn views_of_items(v: Seq<MemeItem>) -> Seq<ItemView> {
    v.map_values(|m: MemeItem| m@)
}

/// The answer records of a whole listing, in order.
pub open spec fn spec_render_all(ps: Seq<PostView>) -> Seq<ItemView> {
    ps.map_values(|p: PostView| spec_render(p))
}

/// A fresh copy of a list of byte strings.
fn copy_byte_lists(v: &Vec<Vec<u8>>) -> (r: Vec<Vec<u8>>)
    ensures
        r.deep_view() == v.deep_view(),
{
    let mut r: Vec<Vec<u8>> = Vec::new();
    let mut i: usize = 0;
    while i < v.len()
        invariant
            0 <= i <= v@.len(),
            v@.len() == vstd::std_specs::vec::spec_vec_len(v),
            r.deep_view() == v.deep_view().take(i as int),
        decreases v@.len() - i,
    {
        let ghost pre = r.deep_view();
        let c = copy_bytes(&v[i]);
        proof {
            assert(c.deep_view() =~= v@[i as int].deep_view());
        }
        let ghost cv = c.deep_view();
        r.push(c);
        proof {
            assert(r.deep_view() =~~= pre.push(cv));
            assert(pre.push(cv) =~~= v.deep_view().take(i + 1));
        }
        i += 1;
    }
    assert(r.deep_view() =~~= v.deep_view());
    r
}

/// Builds the answer record for one post.
pub fn render_item(post: &Post) -> (r: MemeItem)
    ensures
        r@ == spec_render(post@),
{
    let image = resolve_image(post);
    let item = MemeItem {
        title: copy_bytes(&post.title),
        url: copy_bytes(&post.url),
        author: copy_bytes(&post.author),
        over_18: post.over_18,
        thumbnail: copy_bytes(&post.thumbnail),
        image,
        created_utc: copy_bytes(&post.created_utc),
        ups: post.ups,
        downs: post.downs,
        num_comments: post.num_comments,
        snippets: copy_byte_lists(&post.snippets),
        is_video: post.is_video,
    };
    item
}

/// Builds the answer records for a whole processed listing, in order.
pub fn render_items(posts: &Vec<Post>) -> (r: Vec<MemeItem>)
    ensures
        views_of_items(r@) == spec_render_all(views_of_posts(posts@)),
{
    let mut r: Vec<MemeItem> = Vec::new();
    let mut i: usize = 0;
    while i < posts.len()
        invariant
            0 <= i <= posts@.len(),
            posts@.len() == vstd::std_specs::vec::spec_vec_len(posts),
            views_of_items(r@) == spec_render_all(views_of_posts(posts@)).take(i as int),
        decreases posts@.len() - i,
    {
        let ghost pre = views_of_items(r@);
        let item = render_item(&posts[i]);
        let ghost iv = item@;
        proof {
            assert(iv == spec_render(posts@[i as int]@));
            assert(views_of_posts(posts@)[i as int] == posts@[i as int]@);
        }
        r.push(item);
        proof {
            assert(views_of_items(r@) =~= pre.push(iv));
            assert(pre.push(iv) =~= spec_render_all(views_of_posts(posts@)).take(i + 1));
        }
        i += 1;
    }
    assert(views_of_items(r@) =~= spec_render_all(views_of_posts(posts@)));
    r
}

} // verus!

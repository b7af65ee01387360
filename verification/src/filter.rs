//! Filtering and transforming the fetched listing: exclusion of rich-media
//! and adult-flagged posts and of posts without a usable image, and snippet
//! derivation for the survivors, keeping their original order.

use vstd::prelude::*;

use crate::image::{resolve_image, spec_resolve_image};
use crate::post::{views_of_posts, Post, PostView};
use crate::snippets::{derive_snippets, spec_snippets};

verus! {

/// A post survives filtering when it carries no rich-media indicator, is
/// not adult-flagged, and has a resolvable display image.
pub open spec fn spec_keep(p: PostView) -> bool {
    !p.has_secure_media && !p.over_18 && spec_resolve_image(p) is Some
}

/// A surviving post with its snippets filled in from its body.
pub open spec fn spec_transform(p: PostView) -> PostView {
    PostView { snippets: spec_snippets(p.selftext), ..p }
}

/// The processed listing: the survivors, transformed, in original order.
pub open spec fn spec_process(ps: Seq<PostView>) -> Seq<PostView>
    decreases ps.len(),
{
    if ps.len() == 0 {
        Seq::empty()
    } else if spec_keep(ps[0]) {
        seq![spec_transform(ps[0])] + spec_process(ps.skip(1))
    } else {
        spec_process(ps.skip(1))
    }
}

/// No processed post is adult-flagged or carries a rich-media indicator,
/// whatever its image availability was; and each still resolves to an image.
pub proof fn lemma_process_excludes_unsafe(ps: Seq<PostView>, i: int)
    requires
        0 <= i < spec_process(ps).len(),
    ensures
        !spec_process(ps)[i].over_18,
        !spec_process(ps)[i].has_secure_media,
        spec_resolve_image(spec_process(ps)[i]) is Some,
    decreases ps.len(),
{
    if ps.len() == 0 {
    } else if spec_keep(ps[0]) {
        if i == 0 {
            assert(spec_process(ps)[0] == spec_transform(ps[0]));
            assert(spec_resolve_image(spec_transform(ps[0])) == spec_resolve_image(ps[0]));
        } else {
            lemma_process_excludes_unsafe(ps.skip(1), i - 1);
        }
    } else {
        lemma_process_excludes_unsafe(ps.skip(1), i);
    }
}

/// Filters the fetched posts and fills in their snippets, preserving the
/// relative order of the survivors.
pub fn process(posts: Vec<Post>) -> (r: Vec<Post>)
    ensures
        views_of_posts(r@) == spec_process(views_of_posts(posts@)),
        forall|i: int|
            0 <= i < r@.len() ==> !(#[trigger] r@[i])@.over_18 && !r@[i]@.has_secure_media,
{
    let ghost orig = views_of_posts(posts@);
    let mut rem = posts;
    let mut out: Vec<Post> = Vec::new();
    proof {
        assert(views_of_posts(out@) + spec_process(views_of_posts(rem@)) =~= spec_process(orig));
    }
    while rem.len() > 0
        invariant
            spec_process(orig) == views_of_posts(out@) + spec_process(views_of_posts(rem@)),
        decreases rem.len(),
    {
        let ghost rem_views = views_of_posts(rem@);
        let ghost out_views = views_of_posts(out@);
        let p = rem.remove(0);
        proof {
            assert(rem_views[0] == p@);
            assert(views_of_posts(rem@) =~= rem_views.skip(1));
        }
        let keep = !p.has_secure_media && !p.over_18 && resolve_image(&p).is_some();
        proof {
            assert(keep == spec_keep(p@));
        }
        if keep {
            let snippets = derive_snippets(&p.selftext);
            let q = Post { snippets, ..p };
            proof {
                assert(q@ == spec_transform(p@));
            }
            out.push(q);
            proof {
                assert(views_of_posts(out@) =~= out_views.push(q@));
                assert(out_views + (seq![spec_transform(rem_views[0])] + spec_process(
                    rem_views.skip(1),
                )) =~= views_of_posts(out@) + spec_process(rem_views.skip(1)));
            }
        }
    }
    proof {
        assert(views_of_posts(rem@) =~= Seq::<PostView>::empty());
        assert(views_of_posts(out@) + spec_process(views_of_posts(rem@)) =~= views_of_posts(out@));
        assert forall|i: int|
            0 <= i < out@.len() implies !(#[trigger] out@[i])@.over_18
            && !out@[i]@.has_secure_media by {
            assert(views_of_posts(out@)[i] == out@[i]@);
            lemma_process_excludes_unsafe(orig, i);
        }
    }
    out
}

} // verus!

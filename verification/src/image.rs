//! Resolving a post's display image: the first preview candidate after
//! entity decoding and host rewriting, else the post's own link when it is a
//! plain image file, else the thumbnail when it is a URL; mirror-hosted
//! images are never used.

use vstd::prelude::*;
use vstd::string::{StrSliceExecFns, StringSliceAdditionalSpecFns};

use crate::post::{Post, PostView};
use crate::text::{
    contains_bytes, contains_seq, copy_bytes, has_prefix, has_prefix_bytes, has_suffix,
    has_suffix_bytes, replace_all, replace_all_bytes, replace_first, replace_first_bytes,
};

verus! {

/// A preview URL after entity decoding and host rewriting: `&amp;` becomes
/// `&`, then the first matching known mirror host is rewritten to the
/// canonical image host.
pub open spec fn spec_rewrite_preview_url(u: Seq<u8>) -> Seq<u8> {
    let d = replace_all(u, "&amp;".spec_bytes(), "&".spec_bytes());
    if contains_seq(d, "external-preview.redd.it".spec_bytes()) {
        replace_first(
            d,
            "https://external-preview.redd.it".spec_bytes(),
            "https://i.redd.it".spec_bytes(),
        )
    } else if contains_seq(d, "external-i.redd.it".spec_bytes()) {
        replace_first(
            d,
            "https://external-i.redd.it".spec_bytes(),
            "https://i.redd.it".spec_bytes(),
        )
    } else if contains_seq(d, "preview.redd.it".spec_bytes()) {
        replace_first(
            d,
            "https://preview.redd.it".spec_bytes(),
            "https://i.redd.it".spec_bytes(),
        )
    } else {
        d
    }
}

/// The image taken from the preview structure, if the post has one with at
/// least one candidate and the rewritten URL no longer points at a mirror.
pub open spec fn spec_preview_image(p: PostView) -> Option<Seq<u8>> {
    match p.preview {
        Some(images) => if images.len() > 0 {
            let r = spec_rewrite_preview_url(images[0].url);
            if !contains_seq(r, "external-".spec_bytes()) {
                Some(r)
            } else {
                None
            }
        } else {
            None
        },
        None => None,
    }
}

/// The post's own link is usable when it names a plain image file and does
/// not point at a mirror.
pub open spec fn spec_direct_url_ok(p: PostView) -> bool {
    (has_suffix(p.url, ".jpg".spec_bytes()) || has_suffix(p.url, ".png".spec_bytes())
        || has_suffix(p.url, ".jpeg".spec_bytes()) || has_suffix(p.url, ".webp".spec_bytes()))
        && !contains_seq(p.url, "external-".spec_bytes())
}

/// The thumbnail is usable when it is a URL (not a sentinel string) and does
/// not point at a mirror.
pub open spec fn spec_thumbnail_ok(p: PostView) -> bool {
    has_prefix(p.thumbnail, "http".spec_bytes()) && !contains_seq(
        p.thumbnail,
        "external-".spec_bytes(),
    )
}

/// The display image of a post: the preview candidate first, then the
/// post's own link, then the thumbnail, else none.
pub open spec fn spec_resolve_image(p: PostView) -> Option<Seq<u8>> {
    if spec_preview_image(p) is Some {
        spec_preview_image(p)
    } else if spec_direct_url_ok(p) {
        Some(p.url)
    } else if spec_thumbnail_ok(p) {
        Some(p.thumbnail)
    } else {
        None
    }
}

/// Resolving the display image reads the post alone, so two resolutions of
/// the same post always agree; in particular a resolution used to decide a
/// post's inclusion and one used to fill the answer cannot differ.
pub proof fn lemma_resolve_image_idempotent(
    p: PostView,
    r1: Option<Seq<u8>>,
    r2: Option<Seq<u8>>,
)
    requires
        r1 == spec_resolve_image(p),
        r2 == spec_resolve_image(p),
    ensures
        r1 == r2,
{
}

/// Computes the display image URL of `post`, or `None` when the post has no
/// usable image.
pub fn resolve_image(post: &Post) -> (r: Option<Vec<u8>>)
    ensures
        r matches Some(v) ==> spec_resolve_image(post@) == Some(v@),
        r is None ==> spec_resolve_image(post@) is None,
{
    let ext = "external-".as_bytes_vec();
    if let Some(preview) = &post.preview {
        if preview.images.len() > 0 {
            let decoded = replace_all_bytes(
                &preview.images[0].url,
                &"&amp;".as_bytes_vec(),
                &"&".as_bytes_vec(),
            );
            let target = "https://i.redd.it".as_bytes_vec();
            let rewritten: Vec<u8> = if contains_bytes(
                &decoded,
                &"external-preview.redd.it".as_bytes_vec(),
            ) {
                replace_first_bytes(
                    &decoded,
                    &"https://external-preview.redd.it".as_bytes_vec(),
                    &target,
                )
            } else if contains_bytes(&decoded, &"external-i.redd.it".as_bytes_vec()) {
                replace_first_bytes(
                    &decoded,
                    &"https://external-i.redd.it".as_bytes_vec(),
                    &target,
                )
            } else if contains_bytes(&decoded, &"preview.redd.it".as_bytes_vec()) {
                replace_first_bytes(
                    &decoded,
                    &"https://preview.redd.it".as_bytes_vec(),
                    &target,
                )
            } else {
                decoded
            };
            assert(rewritten@ == spec_rewrite_preview_url(preview.images[0].url@));
            assert(preview.images[0].url@ == post@.preview->0[0].url);
            if !contains_bytes(&rewritten, &ext) {
                return Some(rewritten);
            }
            assert(spec_preview_image(post@) is None);
        }
    }
    if (has_suffix_bytes(&post.url, &".jpg".as_bytes_vec()) || has_suffix_bytes(
        &post.url,
        &".png".as_bytes_vec(),
    ) || has_suffix_bytes(&post.url, &".jpeg".as_bytes_vec()) || has_suffix_bytes(
        &post.url,
        &".webp".as_bytes_vec(),
    )) && !contains_bytes(&post.url, &ext) {
        return Some(copy_bytes(&post.url));
    }
    if has_prefix_bytes(&post.thumbnail, &"http".as_bytes_vec()) && !contains_bytes(
        &post.thumbnail,
        &ext,
    ) {
        return Some(copy_bytes(&post.thumbnail));
    }
    None
}

} // verus!

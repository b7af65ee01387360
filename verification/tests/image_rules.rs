use meme_feed::image::resolve_image;
use meme_feed::post::{Post, Preview, SourceImage};

fn base_post() -> Post {
    Post {
        title: b"a post".to_vec(),
        url: b"https://example.com/page".to_vec(),
        ups: 1,
        downs: 0,
        num_comments: 2,
        over_18: false,
        author: b"someone".to_vec(),
        is_video: false,
        has_secure_media: false,
        thumbnail: b"self".to_vec(),
        created_utc: b"1700000000.5".to_vec(),
        preview: None,
        selftext: Vec::new(),
        snippets: Vec::new(),
    }
}

fn with_preview(url: &str) -> Post {
    let mut p = base_post();
    p.preview = Some(Preview {
        images: vec![SourceImage { url: url.as_bytes().to_vec(), width: 100, height: 50 }],
    });
    p
}

#[test]
fn preview_rewrite_decodes_entities_and_hosts() {
    let p = with_preview("https://external-preview.redd.it/foo.jpg?width=100&amp;height=50");
    assert_eq!(
        resolve_image(&p),
        Some(b"https://i.redd.it/foo.jpg?width=100&height=50".to_vec())
    );
}

#[test]
fn preview_rewrite_other_mirror_hosts() {
    let p = with_preview("https://external-i.redd.it/bar.png");
    assert_eq!(resolve_image(&p), Some(b"https://i.redd.it/bar.png".to_vec()));
    let q = with_preview("https://preview.redd.it/baz.webp?x=1&amp;y=2");
    assert_eq!(resolve_image(&q), Some(b"https://i.redd.it/baz.webp?x=1&y=2".to_vec()));
}

#[test]
fn preview_still_external_falls_through_to_url() {
    let mut p = with_preview("https://external-images.example/external-foo.jpg");
    p.url = b"https://example.com/direct.png".to_vec();
    assert_eq!(resolve_image(&p), Some(b"https://example.com/direct.png".to_vec()));
}

#[test]
fn preview_still_external_falls_through_to_thumbnail() {
    let mut p = with_preview("https://external-images.example/external-foo.jpg");
    p.thumbnail = b"http://example.com/t.jpg".to_vec();
    assert_eq!(resolve_image(&p), Some(b"http://example.com/t.jpg".to_vec()));
}

#[test]
fn direct_url_needs_image_extension() {
    let mut p = base_post();
    p.url = b"https://example.com/a.jpeg".to_vec();
    assert_eq!(resolve_image(&p), Some(b"https://example.com/a.jpeg".to_vec()));
    p.url = b"https://example.com/a.gif".to_vec();
    assert_eq!(resolve_image(&p), None);
    p.url = b"https://example.com/a.JPG".to_vec();
    assert_eq!(resolve_image(&p), None);
}

#[test]
fn direct_url_rejected_when_external() {
    let mut p = base_post();
    p.url = b"https://cdn.example/external-a.jpg".to_vec();
    assert_eq!(resolve_image(&p), None);
}

#[test]
fn thumbnail_needs_http_prefix() {
    let mut p = base_post();
    p.thumbnail = b"https://example.com/t".to_vec();
    assert_eq!(resolve_image(&p), Some(b"https://example.com/t".to_vec()));
    p.thumbnail = b"default".to_vec();
    assert_eq!(resolve_image(&p), None);
}

#[test]
fn resolve_image_is_idempotent() {
    let p = with_preview("https://preview.redd.it/foo.jpg?a=1&amp;b=2");
    let first = resolve_image(&p);
    let second = resolve_image(&p);
    assert_eq!(first, second);
    let q = base_post();
    assert_eq!(resolve_image(&q), resolve_image(&q));
}

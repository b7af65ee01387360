use meme_feed::filter::process;
use meme_feed::render::{render_item, render_items};
use meme_feed::snippets::derive_snippets;
use meme_feed::post::{Post, Preview, SourceImage};

fn eligible_post(title: &str) -> Post {
    Post {
        title: title.as_bytes().to_vec(),
        url: b"https://example.com/a.png".to_vec(),
        ups: 10,
        downs: 1,
        num_comments: 3,
        over_18: false,
        author: b"someone".to_vec(),
        is_video: false,
        has_secure_media: false,
        thumbnail: b"default".to_vec(),
        created_utc: b"1700000000".to_vec(),
        preview: None,
        selftext: Vec::new(),
        snippets: Vec::new(),
    }
}

#[test]
fn snippets_cap_trim_and_drop_blanks() {
    let text = b"  \nLine A\n\nLine B\nLine C\nLine D\n".to_vec();
    let snips = derive_snippets(&text);
    assert_eq!(snips, vec![b"Line A".to_vec(), b"Line B".to_vec(), b"Line C".to_vec()]);
}

#[test]
fn snippets_empty_and_whitespace_only() {
    assert_eq!(derive_snippets(&Vec::new()), Vec::<Vec<u8>>::new());
    assert_eq!(derive_snippets(&b"   \n\t\n  ".to_vec()), Vec::<Vec<u8>>::new());
}

#[test]
fn snippets_trim_and_carriage_returns() {
    let text = b"  one  \r\n\r\n two \nthree\nfour".to_vec();
    let snips = derive_snippets(&text);
    assert_eq!(snips, vec![b"one".to_vec(), b"two".to_vec(), b"three".to_vec()]);
}

#[test]
fn unsafe_posts_never_survive() {
    let mut adult = eligible_post("adult");
    adult.over_18 = true;
    let mut media = eligible_post("media");
    media.has_secure_media = true;
    // Both have a perfectly resolvable image and are excluded all the same.
    let out = process(vec![adult, media]);
    assert!(out.is_empty());
}

#[test]
fn filter_keeps_survivors_in_order_and_fills_snippets() {
    let mut a = eligible_post("A");
    a.selftext = b" first \nsecond\n".to_vec();
    let mut b = eligible_post("B");
    b.over_18 = true;
    let c = eligible_post("C");
    let mut d = eligible_post("D");
    d.url = b"https://example.com/page".to_vec(); // no resolvable image
    let e = eligible_post("E");
    let out = process(vec![a, b, c, d, e]);
    assert_eq!(out.len(), 3);
    assert_eq!(out[0].title, b"A".to_vec());
    assert_eq!(out[1].title, b"C".to_vec());
    assert_eq!(out[2].title, b"E".to_vec());
    assert_eq!(out[0].snippets, vec![b"first".to_vec(), b"second".to_vec()]);
    assert_eq!(out[1].snippets, Vec::<Vec<u8>>::new());
}

#[test]
fn render_recomputes_the_image_and_copies_fields() {
    let mut p = eligible_post("titled");
    p.preview = Some(Preview {
        images: vec![SourceImage {
            url: b"https://preview.redd.it/z.jpg?a=1&amp;b=2".to_vec(),
            width: 10,
            height: 20,
        }],
    });
    let item = render_item(&p);
    assert_eq!(item.title, b"titled".to_vec());
    assert_eq!(item.url, p.url);
    assert_eq!(item.author, p.author);
    assert_eq!(item.thumbnail, p.thumbnail);
    assert_eq!(item.created_utc, p.created_utc);
    assert_eq!(item.ups, 10);
    assert_eq!(item.downs, 1);
    assert_eq!(item.num_comments, 3);
    assert!(!item.over_18);
    assert!(!item.is_video);
    assert_eq!(item.image, Some(b"https://i.redd.it/z.jpg?a=1&b=2".to_vec()));
}

#[test]
fn five_posts_three_eligible_yield_three_records_in_order() {
    let one = eligible_post("one");
    let mut two = eligible_post("two");
    two.over_18 = true;
    let three = eligible_post("three");
    let mut four = eligible_post("four");
    four.url = b"https://example.com/nothing".to_vec();
    let five = eligible_post("five");
    let survivors = process(vec![one, two, three, four, five]);
    let records = render_items(&survivors);
    assert_eq!(records.len(), 3);
    assert_eq!(records[0].title, b"one".to_vec());
    assert_eq!(records[1].title, b"three".to_vec());
    assert_eq!(records[2].title, b"five".to_vec());
    for r in &records {
        assert_eq!(r.image, Some(b"https://example.com/a.png".to_vec()));
    }
}

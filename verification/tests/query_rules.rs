use meme_feed::fetch::{build_top_url, classify_status, prepare_fetch, validate_name};
use meme_feed::query::{meme_query_decision, parse_i32_bytes, parse_query, pct_decode_bytes};
use meme_feed::{validate_limit, ApiError, DEFAULT_LIMIT};

fn decision(q: &str) -> Result<i32, String> {
    meme_query_decision(&q.as_bytes().to_vec()).map_err(|m| String::from_utf8(m).unwrap())
}

#[test]
fn community_names_allow_word_characters_only() {
    assert!(validate_name(&b"MemesBR".to_vec()).is_ok());
    assert!(validate_name(&b"a_b_C_9".to_vec()).is_ok());
    assert!(validate_name(&b"".to_vec()).is_ok());
    assert_eq!(validate_name(&b"memes-br".to_vec()), Err(ApiError::InvalidInput));
    assert_eq!(validate_name(&b"a b".to_vec()), Err(ApiError::InvalidInput));
    assert_eq!(validate_name(&"memes\u{e9}".as_bytes().to_vec()), Err(ApiError::InvalidInput));
}

#[test]
fn crafted_names_fail_before_any_url_exists() {
    let crafted = b"../other?x=1".to_vec();
    assert_eq!(prepare_fetch(Some(crafted), 10), Err(ApiError::InvalidInput));
}

#[test]
fn the_fetch_url_is_exact() {
    assert_eq!(
        prepare_fetch(None, 5),
        Ok(b"https://www.reddit.com/r/MemesBR/top.json?limit=5".to_vec())
    );
    assert_eq!(
        prepare_fetch(Some(b"Test_123".to_vec()), 50),
        Ok(b"https://www.reddit.com/r/Test_123/top.json?limit=50".to_vec())
    );
    assert_eq!(
        build_top_url(&b"MemesBR".to_vec(), 10),
        b"https://www.reddit.com/r/MemesBR/top.json?limit=10".to_vec()
    );
}

#[test]
fn limits_out_of_range_are_rejected() {
    assert_eq!(validate_limit(None), Ok(DEFAULT_LIMIT));
    assert_eq!(validate_limit(Some(1)), Ok(1));
    assert_eq!(validate_limit(Some(50)), Ok(50));
    assert_eq!(validate_limit(Some(0)), Err(ApiError::InvalidInput));
    assert_eq!(validate_limit(Some(51)), Err(ApiError::InvalidInput));
    assert_eq!(validate_limit(Some(-3)), Err(ApiError::InvalidInput));
}

#[test]
fn decision_accepts_a_plain_limit() {
    assert_eq!(decision("limit=5"), Ok(5));
    assert_eq!(decision(""), Ok(10));
    assert_eq!(decision("name=anything"), Ok(10));
    assert_eq!(decision("name=x&limit=50"), Ok(50));
}

#[test]
fn decision_rejects_out_of_range_limits_with_the_range_text() {
    assert_eq!(decision("limit=0"), Err("O limite deve estar entre 1 e 50.".to_string()));
    assert_eq!(decision("limit=51"), Err("O limite deve estar entre 1 e 50.".to_string()));
    assert_eq!(decision("limit=-2"), Err("O limite deve estar entre 1 e 50.".to_string()));
}

#[test]
fn malformed_queries_are_rejected_with_the_parameter_text() {
    assert_eq!(decision("limit=abc"), Err("Par\u{e2}metros inv\u{e1}lidos.".to_string()));
    assert_eq!(decision("limit="), Err("Par\u{e2}metros inv\u{e1}lidos.".to_string()));
    assert_eq!(decision("limit=5&limit=6"), Err("Par\u{e2}metros inv\u{e1}lidos.".to_string()));
    assert_eq!(decision("name=a&name=b"), Err("Par\u{e2}metros inv\u{e1}lidos.".to_string()));
    assert_eq!(decision("limit=2147483648"), Err("Par\u{e2}metros inv\u{e1}lidos.".to_string()));
}

#[test]
fn unknown_keys_and_empty_segments_are_ignored() {
    assert_eq!(decision("foo=bar&&limit=7&baz"), Ok(7));
}

#[test]
fn query_values_are_form_decoded() {
    let p = parse_query(&b"name=a+b%21&limit=3".to_vec()).unwrap();
    assert_eq!(p.name, Some(b"a b!".to_vec()));
    assert_eq!(p.limit, Some(3));
    // An ill-formed escape is kept verbatim.
    assert_eq!(pct_decode_bytes(&b"a%zz+%4".to_vec()), b"a%zz %4".to_vec());
    assert_eq!(pct_decode_bytes(&b"%41%6a%4A".to_vec()), b"AjJ".to_vec());
}

#[test]
fn limit_parsing_matches_integer_syntax() {
    assert_eq!(parse_i32_bytes(&b"2147483647".to_vec()), Some(2147483647));
    assert_eq!(parse_i32_bytes(&b"2147483648".to_vec()), None);
    assert_eq!(parse_i32_bytes(&b"-2147483648".to_vec()), Some(i32::MIN));
    assert_eq!(parse_i32_bytes(&b"-2147483649".to_vec()), None);
    assert_eq!(parse_i32_bytes(&b"+7".to_vec()), Some(7));
    assert_eq!(parse_i32_bytes(&b"007".to_vec()), Some(7));
    assert_eq!(parse_i32_bytes(&b"".to_vec()), None);
    assert_eq!(parse_i32_bytes(&b"-".to_vec()), None);
    assert_eq!(parse_i32_bytes(&b"12a".to_vec()), None);
    assert_eq!(parse_i32_bytes(&b" 3".to_vec()), None);
}

#[test]
fn upstream_status_classification() {
    assert!(classify_status(200).is_ok());
    assert!(classify_status(299).is_ok());
    assert_eq!(classify_status(199), Err(ApiError::UpstreamError(199)));
    assert_eq!(classify_status(300), Err(ApiError::UpstreamError(300)));
    assert_eq!(classify_status(404), Err(ApiError::UpstreamError(404)));
    assert_eq!(classify_status(503), Err(ApiError::UpstreamError(503)));
}

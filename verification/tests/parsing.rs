use prawnloader::numbers::parse_u64_chars;
use prawnloader::numbers::u64_to_string;
use prawnloader::resolver::needs_redirect;
use prawnloader::resolver::parse_deezer;
use prawnloader::resolver::parse_id;
use prawnloader::resolver::parse_youtube;
use prawnloader::resolver::DeezerParser;
use prawnloader::resolver::Error;
use prawnloader::resolver::ParsedId;
use prawnloader::resolver::UrlParts;

static YOUTUBE_VIDEO_URL: &str = "https://www.youtube.com/watch?v=dQw4w9WgXcQ";
static YOUTUBE_PLAYLIST_URL: &str =
    "https://www.youtube.com/playlist?list=PLv3TTBr1W_9tppikBxAE_G6qjWdBljBHJ";
static DEEZER_ALBUM_URL: &str = "https://www.deezer.com/fr/album/63318982";
static DEEZER_TRACK_URL: &str = "https://www.deezer.com/fr/track/498467242";

fn parts(host: &str, path: &str, query: &str) -> UrlParts {
    UrlParts {
        host: host.to_string(),
        path: path.to_string(),
        query: query.to_string(),
    }
}

#[test]
fn parsers_parses_deezer_album() {
    let url = parts("www.deezer.com", "/fr/album/63318982", "");
    let parsed_id = parse_deezer(&url).expect("URL should be valid");
    let expected_id: u64 = 63318982;

    assert_eq!(parsed_id, ParsedId::DeezerAlbum(expected_id));
}

#[test]
fn parsers_parses_deezer_track() {
    let url = parts("www.deezer.com", "/fr/track/498467242", "");
    let parsed_id = parse_deezer(&url).expect("URL should be valid");
    let expected_id: u64 = 498467242;

    assert_eq!(parsed_id, ParsedId::DeezerTrack(expected_id));
}

#[test]
fn parsers_parses_youtube_video() {
    let url = parts("www.youtube.com", "/watch", "v=dQw4w9WgXcQ");
    let parsed_id = parse_youtube(&url).expect("URL should be valid");
    let expected_id = "dQw4w9WgXcQ".to_string();

    assert_eq!(parsed_id, ParsedId::YoutubeVideo(expected_id));
}

#[test]
fn parsers_parses_youtube_playlist() {
    let url = parts(
        "www.youtube.com",
        "/playlist",
        "list=PLv3TTBr1W_9tppikBxAE_G6qjWdBljBHJ",
    );
    let parsed_id = parse_youtube(&url).expect("URL should be valid");
    let expected_id = "PLv3TTBr1W_9tppikBxAE_G6qjWdBljBHJ".to_string();

    assert_eq!(parsed_id, ParsedId::YoutubePlaylist(expected_id));
}

#[test]
fn mod_parses_deezer_album() {
    let parsed_id = parse_id(DEEZER_ALBUM_URL).expect("URL should be valid");
    let expected_id: u64 = 63318982;

    assert_eq!(parsed_id, ParsedId::DeezerAlbum(expected_id));
}

#[test]
fn mod_parses_deezer_track() {
    let parsed_id = parse_id(DEEZER_TRACK_URL).expect("URL should be valid");
    let expected_id: u64 = 498467242;

    assert_eq!(parsed_id, ParsedId::DeezerTrack(expected_id));
}

#[test]
fn mod_parses_youtube_video() {
    let parsed_id = parse_id(YOUTUBE_VIDEO_URL).expect("URL should be valid");

    assert_eq!(
        parsed_id,
        ParsedId::YoutubeVideo("dQw4w9WgXcQ".to_string())
    );
}

#[test]
fn mod_parses_youtube_playlist() {
    let parsed_id = parse_id(YOUTUBE_PLAYLIST_URL).expect("URL should be valid");

    assert_eq!(
        parsed_id,
        ParsedId::YoutubePlaylist("PLv3TTBr1W_9tppikBxAE_G6qjWdBljBHJ".to_string())
    );
}

#[test]
fn rewrites_music_subdomain() {
    let parsed_id =
        parse_id("https://music.youtube.com/watch?v=gAy5WZo9kts").expect("URL should be valid");
    assert_eq!(parsed_id, ParsedId::YoutubeVideo("gAy5WZo9kts".to_string()));

    let parsed_id =
        parse_id("https://m.youtube.com/watch?v=dQw4w9WgXcQ").expect("URL should be valid");
    assert_eq!(parsed_id, ParsedId::YoutubeVideo("dQw4w9WgXcQ".to_string()));
}

#[test]
fn track_url_of_any_host_resolves() {
    let parsed_id = parse_id("https://provider/track/12345").expect("URL should be valid");
    assert_eq!(parsed_id, ParsedId::DeezerTrack(12345));
}

#[test]
fn malformed_url_is_rejected() {
    assert!(matches!(
        parse_id("not a url"),
        Err(Error::UnparsableUrl(_))
    ));
    assert!(matches!(parse_id(""), Err(Error::UnparsableUrl(_))));
    assert!(matches!(
        parse_id("www.deezer.com/fr/track/498467242"),
        Err(Error::UnparsableUrl(_))
    ));
}

#[test]
fn unmatched_url_has_no_parser() {
    assert!(matches!(
        parse_id("https://example.com/"),
        Err(Error::NoParser(_))
    ));
    assert!(matches!(
        parse_id("https://www.youtube.com/feed"),
        Err(Error::NoParser(_))
    ));
    assert!(matches!(
        parse_id("https://www.youtube.com/watch?x=1"),
        Err(Error::NoParser(_))
    ));
    assert!(matches!(
        parse_id("https://www.deezer.com/fr/artist/27"),
        Err(Error::NoParser(_))
    ));
}

#[test]
fn invalid_id_is_reported() {
    match parse_id("https://www.deezer.com/fr/track/12a45") {
        Err(Error::InvalidId(text)) => assert_eq!(text, "12a45"),
        other => panic!("expected an invalid id, got {other:?}"),
    }
    // One past u64::MAX does not fit.
    assert!(matches!(
        parse_id("https://www.deezer.com/fr/track/18446744073709551616"),
        Err(Error::InvalidId(_))
    ));
    // An empty id segment (trailing slash) is not numeric.
    assert!(matches!(
        parse_id("https://www.deezer.com/fr/track/"),
        Err(Error::InvalidId(_))
    ));
}

#[test]
fn grammar_rejections_name_the_reason() {
    // An unknown kind segment is rejected by the Deezer grammar.
    match parse_deezer(&parts("www.deezer.com", "/fr/artist/27", "")) {
        Err(Error::InvalidURL(m)) => assert_eq!(m, "Invalid artist"),
        other => panic!("expected a rejection, got {other:?}"),
    }
    // Fewer than two path segments cannot carry a kind and an id.
    match parse_deezer(&parts("www.deezer.com", "/63318982", "")) {
        Err(Error::InvalidURL(m)) => assert_eq!(m, "Expected at least 2 path segments."),
        other => panic!("expected a rejection, got {other:?}"),
    }
    // The Youtube grammar serves only its canonical host.
    match parse_youtube(&parts("www.deezer.com", "/watch", "v=abc")) {
        Err(Error::InvalidURL(m)) => assert_eq!(m, "URL is not valid."),
        other => panic!("expected a rejection, got {other:?}"),
    }
}

#[test]
fn deezer_parser_struct_matches_free_function() {
    let parser = DeezerParser::new();
    let url = parts("www.deezer.com", "/fr/album/63318982", "");
    assert_eq!(
        parser.parse_url(&url).expect("URL should be valid"),
        ParsedId::DeezerAlbum(63318982)
    );
}

#[test]
fn last_query_pair_wins() {
    let parsed_id =
        parse_id("https://www.youtube.com/watch?v=first&v=second").expect("URL should be valid");
    assert_eq!(parsed_id, ParsedId::YoutubeVideo("second".to_string()));
}

#[test]
fn detects_shortener_urls() {
    assert!(needs_redirect("https://deezer.page.link/CWiy1BS7UeZqAnt56"));
    assert!(!needs_redirect(DEEZER_TRACK_URL));
    assert!(!needs_redirect("not a url"));
}

#[test]
fn parses_decimal_ids() {
    assert_eq!(parse_u64_chars(&vec!['1', '2', '3']), Some(123));
    assert_eq!(parse_u64_chars(&vec!['0']), Some(0));
    assert_eq!(parse_u64_chars(&Vec::new()), None);
    assert_eq!(parse_u64_chars(&vec!['1', 'x']), None);
    let max: Vec<char> = "18446744073709551615".chars().collect();
    assert_eq!(parse_u64_chars(&max), Some(u64::MAX));
    let over: Vec<char> = "18446744073709551616".chars().collect();
    assert_eq!(parse_u64_chars(&over), None);
}

#[test]
fn prints_decimal_ids() {
    assert_eq!(u64_to_string(0), "0");
    assert_eq!(u64_to_string(7), "7");
    assert_eq!(u64_to_string(498467242), "498467242");
    assert_eq!(u64_to_string(u64::MAX), "18446744073709551615");
}

//! The identifier resolver: turns a raw URL string into a canonical provider
//! reference. A URL is first split into host, path and query by the `url`
//! crate, the host is normalized (music/mobile subdomains are rewritten to
//! the canonical one), and the parts are then matched against each provider's
//! URL grammar in a fixed priority order; the first grammar that parses wins.

use vstd::prelude::*;
use vstd::string::*;

use crate::numbers::all_digits;
use crate::numbers::digits_val;
use crate::numbers::parse_u64_chars;
use crate::text::chars_eq_str;
use crate::text::first_index_of;
use crate::text::last_index_of;
use crate::text::lemma_last_index_of;
use crate::text::lfind;
use crate::text::rfind;
use crate::text::str_eq;
use crate::text::str_to_chars;
use crate::text::string_from_chars;
use crate::text::subvec;

verus! {

/// The host, path and query of a parsed URL, as plain text. The query is the
/// text after `?`, empty when there is none; the host is the domain name,
/// empty when the URL has none (or it is an IP address).
pub struct UrlParts {
    pub host: String,
    pub path: String,
    pub query: String,
}

/// The mathematical content of a [`UrlParts`] value.
pub struct UrlPartsView {
    pub host: Seq<char>,
    pub path: Seq<char>,
    pub query: Seq<char>,
}

impl View for UrlParts {
    type V = UrlPartsView;

    open spec fn view(&self) -> UrlPartsView {
        UrlPartsView { host: self.host@, path: self.path@, query: self.query@ }
    }
}

/// What the URL parser of the `url` crate returns for a given string, or
/// `None` when the string is not a well-formed URL. The parse is a function
/// of the text alone.
pub uninterp spec fn url_parts_of(s: Seq<char>) -> Option<UrlPartsView>;

/// Relies on `url::Url::parse` and its accessors `domain`, `path` and
/// `query`: a well-formed URL splits into a domain name (empty when the host
/// is absent or an IP address), a path, and the query text after `?` (empty
/// when there is none); parsing fails exactly on strings that are not
/// well-formed URLs.
#[verifier::external_body]
fn url_components(s: &str) -> (r: Option<UrlParts>)
    ensures
        match r {
            Some(p) => url_parts_of(s@) == Some(p@),
            None => url_parts_of(s@) is None,
        },
{
    match url::Url::parse(s) {
        Ok(u) => {
            let host = match u.domain() {
                Some(d) => d.to_string(),
                None => String::new(),
            };
            let query = match u.query() {
                Some(q) => q.to_string(),
                None => String::new(),
            };
            Some(UrlParts { host, path: u.path().to_string(), query })
        },
        Err(_) => None,
    }
}

/// A canonical reference to provider content: which provider, what kind of
/// item, and its identifier.
#[derive(Debug, Clone, PartialEq, Eq)]
pub enum ParsedId {
    DeezerAlbum(u64),
    DeezerTrack(u64),
    YoutubeVideo(String),
    YoutubePlaylist(String),
}

/// Why a URL could not be resolved.
#[derive(Debug, Clone, PartialEq, Eq)]
pub enum Error {
    /// A grammar matched but rejected the URL; holds a description.
    InvalidURL(String),
    /// A matched grammar extracted an id that is not a valid number; holds
    /// the offending text.
    InvalidId(String),
    /// No provider grammar matched; holds the URL.
    NoParser(String),
    /// A track id was valid but the provider reports no such song.
    SongNotFound(u64),
    /// An album id was valid but the provider reports no such album.
    AlbumNotFound(u64),
    /// The string is not a well-formed URL; holds it.
    UnparsableUrl(String),
}

/// Rewrites the music and mobile subdomains to the canonical one.
pub open spec fn normalize_host_spec(h: Seq<char>) -> Seq<char> {
    if h == "music.youtube.com"@ || h == "m.youtube.com"@ {
        "www.youtube.com"@
    } else {
        h
    }
}

/// The host that URL shorteners of the Deezer provider use; resolving such a
/// URL needs one redirect-follow step first.
pub open spec fn is_shortener_host(h: Seq<char>) -> bool {
    h == "deezer.page.link"@
}

/// A path with at least two segments: it starts with `/` and a second `/`
/// follows, so a kind segment and an id segment can be taken from its end.
pub open spec fn deezer_shape(path: Seq<char>) -> bool {
    path.len() > 0 && path[0] == '/' && last_index_of(path, '/') >= 1
}

/// The last path segment: the id text of a Deezer URL.
pub open spec fn deezer_id_seg(path: Seq<char>) -> Seq<char> {
    path.subrange(last_index_of(path, '/') + 1, path.len() as int)
}

/// The second-to-last path segment: the kind (`track` or `album`) of a
/// Deezer URL.
pub open spec fn deezer_kind_seg(path: Seq<char>) -> Seq<char> {
    let j = last_index_of(path, '/');
    path.subrange(last_index_of(path.subrange(0, j), '/') + 1, j)
}

/// Whether the Deezer grammar matches this path: two trailing segments,
/// the first of which names a known kind.
pub open spec fn deezer_matched(path: Seq<char>) -> bool {
    deezer_shape(path) && (deezer_kind_seg(path) == "track"@ || deezer_kind_seg(path) == "album"@)
}

/// A non-empty run of digits whose value fits in a `u64`.
pub open spec fn valid_id_digits(s: Seq<char>) -> bool {
    s.len() > 0 && all_digits(s) && digits_val(s) <= u64::MAX
}

/// The reference a matched Deezer URL with a valid id resolves to.
pub open spec fn deezer_parsed(path: Seq<char>) -> ParsedId {
    if deezer_kind_seg(path) == "track"@ {
        ParsedId::DeezerTrack(digits_val(deezer_id_seg(path)) as u64)
    } else {
        ParsedId::DeezerAlbum(digits_val(deezer_id_seg(path)) as u64)
    }
}

/// The description given when the Deezer grammar rejects a path.
pub open spec fn deezer_reject_msg(path: Seq<char>) -> Seq<char> {
    if !(path.len() > 0 && path[0] == '/') {
        "URL cannot be a base."@
    } else if last_index_of(path, '/') < 1 {
        "Expected at least 2 path segments."@
    } else {
        "Invalid "@ + deezer_kind_seg(path)
    }
}

/// What matching a path against the Deezer grammar must return.
pub open spec fn deezer_parse_result(path: Seq<char>, r: Result<ParsedId, Error>) -> bool {
    match r {
        Ok(id) => deezer_matched(path) && valid_id_digits(deezer_id_seg(path)) && id
            == deezer_parsed(path),
        Err(e) => match e {
            Error::InvalidId(m) => deezer_matched(path) && !valid_id_digits(deezer_id_seg(path))
                && m@ == deezer_id_seg(path),
            Error::InvalidURL(m) => !deezer_matched(path) && m@ == deezer_reject_msg(path),
            _ => false,
        },
    }
}

/// Matches a URL against the Deezer grammar: the two trailing path segments
/// are a kind (`track` or `album`) and a numeric id.
pub fn parse_deezer(parts: &UrlParts) -> (r: Result<ParsedId, Error>)
    ensures
        deezer_parse_result(parts.path@, r),
{
    let path = str_to_chars(parts.path.as_str());
    proof {
        lemma_last_index_of(parts.path@, '/');
    }
    if path.len() == 0 || path[0] != '/' {
        return Err(Error::InvalidURL(String::from_str("URL cannot be a base.")));
    }
    // A leading slash guarantees rfind succeeds.
    let j = match rfind(&path, '/') {
        Some(j) => j,
        None => {
            return vstd::pervasive::unreached();
        },
    };
    if j == 0 {
        return Err(Error::InvalidURL(String::from_str("Expected at least 2 path segments.")));
    }
    let id_chars = subvec(&path, j + 1, path.len());
    let prefix = subvec(&path, 0, j);
    proof {
        lemma_last_index_of(parts.path@.subrange(0, j as int), '/');
        assert(prefix@[0] == '/');
    }
    // The prefix still starts with the leading slash.
    let j2 = match rfind(&prefix, '/') {
        Some(j2) => j2,
        None => {
            return vstd::pervasive::unreached();
        },
    };
    let kind_chars = subvec(&path, j2 + 1, j);
    proof {
        assert(kind_chars@ == deezer_kind_seg(parts.path@));
        assert(id_chars@ == deezer_id_seg(parts.path@));
    }
    let is_track = chars_eq_str(&kind_chars, "track");
    let is_album = chars_eq_str(&kind_chars, "album");
    if !is_track && !is_album {
        let mut m = String::from_str("Invalid ");
        let kind_text = string_from_chars(&kind_chars);
        m.append(kind_text.as_str());
        return Err(Error::InvalidURL(m));
    }
    match parse_u64_chars(&id_chars) {
        Some(n) => {
            if is_track {
                Ok(ParsedId::DeezerTrack(n))
            } else {
                Ok(ParsedId::DeezerAlbum(n))
            }
        },
        None => Err(Error::InvalidId(string_from_chars(&id_chars))),
    }
}

/// The text of the query pair `p` before the first `=`, or all of `p` when
/// there is none.
pub open spec fn pair_key(p: Seq<char>) -> Seq<char> {
    let e = first_index_of(p, '=');
    if e < 0 {
        p
    } else {
        p.subrange(0, e)
    }
}

/// The text of the query pair `p` after the first `=`, or empty when there
/// is none.
pub open spec fn pair_value(p: Seq<char>) -> Seq<char> {
    let e = first_index_of(p, '=');
    if 0 <= e < p.len() {
        p.subrange(e + 1, p.len() as int)
    } else {
        Seq::empty()
    }
}

/// The value of the last `key=value` pair of the query whose key is `key`,
/// pairs being separated by `&`.
pub open spec fn query_value(q: Seq<char>, key: Seq<char>) -> Option<Seq<char>>
    decreases q.len(),
{
    let j = last_index_of(q, '&');
    if 0 <= j < q.len() {
        let pair = q.subrange(j + 1, q.len() as int);
        if pair_key(pair) == key {
            Some(pair_value(pair))
        } else {
            query_value(q.subrange(0, j), key)
        }
    } else {
        if pair_key(q) == key {
            Some(pair_value(q))
        } else {
            None
        }
    }
}

/// Looks up the last query pair with the given key.
fn find_query_value(query: &str, key: &str) -> (r: Option<String>)
    ensures
        match r {
            Some(v) => query_value(query@, key@) == Some(v@),
            None => query_value(query@, key@) is None,
        },
{
    let mut rest = str_to_chars(query);
    loop
        invariant
            query_value(query@, key@) == query_value(rest@, key@),
        decreases rest@.len(),
    {
        proof {
            lemma_last_index_of(rest@, '&');
        }
        let n = rest.len();
        let j_opt = rfind(&rest, '&');
        let pair: Vec<char> = match j_opt {
            Some(j) => subvec(&rest, j + 1, n),
            None => subvec(&rest, 0, n),
        };
        proof {
            if j_opt is None {
                assert(rest@.subrange(0, rest@.len() as int) =~= rest@);
            }
        }
        if pair_matches_key(&pair, key) {
            let e_opt = lfind(&pair, '=');
            let value = match e_opt {
                Some(e) => subvec(&pair, e + 1, pair.len()),
                None => Vec::new(),
            };
            proof {
                assert(value@ == pair_value(pair@));
            }
            return Some(string_from_chars(&value));
        }
        match j_opt {
            Some(j) => {
                rest.truncate(j);
            },
            None => {
                return None;
            },
        }
    }
}

/// Whether the key of this query pair is exactly `key`.
fn pair_matches_key(pair: &Vec<char>, key: &str) -> (r: bool)
    ensures
        r == (pair_key(pair@) == key@),
{
    let e_opt = lfind(pair, '=');
    match e_opt {
        Some(e) => {
            let k = subvec(pair, 0, e);
            chars_eq_str(&k, key)
        },
        None => {
            proof {
                assert(pair_key(pair@) == pair@);
            }
            chars_eq_str(pair, key)
        },
    }
}

/// Whether the Youtube grammar matches: the canonical host with a `/watch`
/// URL carrying a `v` id, or a `/playlist` URL carrying a `list` id.
pub open spec fn youtube_matched(host: Seq<char>, path: Seq<char>, query: Seq<char>) -> bool {
    host == "www.youtube.com"@ && ((path == "/watch"@ && query_value(query, "v"@) is Some) || (
    path == "/playlist"@ && query_value(query, "list"@) is Some))
}

/// Matches a URL against the Youtube grammar. The host must already be
/// normalized.
pub fn parse_youtube(parts: &UrlParts) -> (r: Result<ParsedId, Error>)
    ensures
        match r {
            Ok(id) => youtube_matched(parts.host@, parts.path@, parts.query@) && match id {
                ParsedId::YoutubeVideo(s) => parts.path@ == "/watch"@ && Some(s@) == query_value(
                    parts.query@,
                    "v"@,
                ),
                ParsedId::YoutubePlaylist(s) => parts.path@ == "/playlist"@ && Some(s@)
                    == query_value(parts.query@, "list"@),
                _ => false,
            },
            Err(e) => match e {
                Error::InvalidURL(m) => !youtube_matched(parts.host@, parts.path@, parts.query@)
                    && m@ == "URL is not valid."@,
                _ => false,
            },
        },
{
    if !str_eq(parts.host.as_str(), "www.youtube.com") {
        return Err(Error::InvalidURL(String::from_str("URL is not valid.")));
    }
    if str_eq(parts.path.as_str(), "/watch") {
        if let Some(v) = find_query_value(parts.query.as_str(), "v") {
            return Ok(ParsedId::YoutubeVideo(v));
        }
    }
    if str_eq(parts.path.as_str(), "/playlist") {
        if let Some(v) = find_query_value(parts.query.as_str(), "list") {
            return Ok(ParsedId::YoutubePlaylist(v));
        }
    }
    Err(Error::InvalidURL(String::from_str("URL is not valid.")))
}

/// What resolving normalized URL parts must return, stated over the two
/// grammars in their priority order.
pub open spec fn resolution_ok(
    parts: UrlPartsView,
    url: Seq<char>,
    r: Result<ParsedId, Error>,
) -> bool {
    let host = normalize_host_spec(parts.host);
    if deezer_matched(parts.path) {
        if valid_id_digits(deezer_id_seg(parts.path)) {
            r == Ok::<ParsedId, Error>(deezer_parsed(parts.path))
        } else {
            match r {
                Err(Error::InvalidId(m)) => m@ == deezer_id_seg(parts.path),
                _ => false,
            }
        }
    } else if youtube_matched(host, parts.path, parts.query) {
        match r {
            Ok(ParsedId::YoutubeVideo(s)) => parts.path == "/watch"@ && Some(s@) == query_value(
                parts.query,
                "v"@,
            ),
            Ok(ParsedId::YoutubePlaylist(s)) => parts.path == "/playlist"@ && Some(s@)
                == query_value(parts.query, "list"@),
            _ => false,
        }
    } else {
        match r {
            Err(Error::NoParser(m)) => m@ == url,
            _ => false,
        }
    }
}

/// Normalizes the host of already-split URL parts.
pub fn normalize_parts(parts: UrlParts) -> (r: UrlParts)
    ensures
        r@.host == normalize_host_spec(parts@.host),
        r@.path == parts@.path,
        r@.query == parts@.query,
{
    if str_eq(parts.host.as_str(), "music.youtube.com") || str_eq(
        parts.host.as_str(),
        "m.youtube.com",
    ) {
        UrlParts {
            host: String::from_str("www.youtube.com"),
            path: parts.path,
            query: parts.query,
        }
    } else {
        parts
    }
}

/// Resolves already-split URL parts against the provider grammars, Deezer
/// first; `url` is the original text, reported when no grammar matches.
pub fn parse_id_from_parts(parts: &UrlParts, url: &str) -> (r: Result<ParsedId, Error>)
    ensures
        resolution_ok(parts@, url@, r),
{
    let normalized = normalize_parts(UrlParts {
        host: parts.host.clone(),
        path: parts.path.clone(),
        query: parts.query.clone(),
    });
    match parse_deezer(&normalized) {
        Ok(id) => Ok(id),
        Err(Error::InvalidId(m)) => Err(Error::InvalidId(m)),
        Err(_) => {
            match parse_youtube(&normalized) {
                Ok(id) => Ok(id),
                Err(_) => Err(Error::NoParser(String::from_str(url))),
            }
        },
    }
}

/// Resolves a raw URL string to a provider reference. A string that is not a
/// well-formed URL fails with [`Error::UnparsableUrl`]; a URL no grammar
/// matches fails with [`Error::NoParser`]; a matched grammar with a
/// non-numeric id fails with [`Error::InvalidId`]. URLs of a shortener host
/// (see [`needs_redirect`]) must have their redirect followed first.
pub fn parse_id(url: &str) -> (r: Result<ParsedId, Error>)
    ensures
        match url_parts_of(url@) {
            None => (match r {
                Err(Error::UnparsableUrl(m)) => m@ == url@,
                _ => false,
            }),
            Some(p) => resolution_ok(p, url@, r),
        },
{
    match url_components(url) {
        None => Err(Error::UnparsableUrl(String::from_str(url))),
        Some(parts) => parse_id_from_parts(&parts, url),
    }
}

/// Whether this URL names a link-shortener host, whose target URL must be
/// fetched by one HTTP redirect-follow step and resolved instead.
pub fn needs_redirect(url: &str) -> (b: bool)
    ensures
        b == (match url_parts_of(url@) {
            Some(p) => is_shortener_host(p.host),
            None => false,
        }),
{
    match url_components(url) {
        None => false,
        Some(parts) => str_eq(parts.host.as_str(), "deezer.page.link"),
    }
}

/// The Deezer member of the provider parser family.
pub struct DeezerParser {}

impl DeezerParser {
    /// Creates the parser.
    pub fn new() -> (p: DeezerParser)
        ensures
            p == (DeezerParser {  }),
    {
        DeezerParser {  }
    }

    /// Matches already-split URL parts against the Deezer grammar.
    pub fn parse_url(&self, parts: &UrlParts) -> (r: Result<ParsedId, Error>)
        ensures
            deezer_parse_result(parts.path@, r),
    {
        parse_deezer(parts)
    }
}

} // verus!

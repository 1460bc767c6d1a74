//! File-name sanitization: output names are derived from track metadata, so
//! characters that common filesystems refuse must be removed, and removing
//! them twice must change nothing.

use vstd::prelude::*;
use vstd::string::*;

use crate::text::str_to_chars;
use crate::text::string_from_chars;

verus! {

/// A character that may not appear in a file name on common filesystems.
pub open spec fn is_illegal_char(c: char) -> bool {
    c == '<' || c == '>' || c == ':' || c == '"' || c == '/' || c == '\\' || c == '|' || c == '?'
        || c == '*'
}

/// A character that may stay in a file name.
pub open spec fn legal_char(c: char) -> bool {
    !is_illegal_char(c)
}

/// The sanitized form of a name: the same characters, in the same order,
/// with the illegal ones removed.
pub open spec fn sanitize_spec(s: Seq<char>) -> Seq<char>
    decreases s.len(),
{
    if s.len() == 0 {
        Seq::empty()
    } else if legal_char(s.last()) {
        sanitize_spec(s.drop_last()).push(s.last())
    } else {
        sanitize_spec(s.drop_last())
    }
}

/// Every character of a sanitized name is legal.
pub proof fn lemma_sanitize_clean(s: Seq<char>)
    ensures
        forall|i: int|
            0 <= i < sanitize_spec(s).len() ==> legal_char(#[trigger] sanitize_spec(s)[i]),
    decreases s.len(),
{
    if s.len() > 0 {
        lemma_sanitize_clean(s.drop_last());
        if legal_char(s.last()) {
            let prev = sanitize_spec(s.drop_last());
            assert forall|i: int|
                0 <= i < sanitize_spec(s).len() implies legal_char(
                #[trigger] sanitize_spec(s)[i],
            ) by {
                if i < prev.len() {
                    assert(sanitize_spec(s)[i] == prev[i]);
                } else {
                    assert(sanitize_spec(s)[i] == s.last());
                }
            }
        }
    }
}

/// Sanitizing a name that holds no illegal character returns it unchanged.
pub proof fn lemma_sanitize_all_legal(s: Seq<char>)
    requires
        forall|i: int| 0 <= i < s.len() ==> legal_char(#[trigger] s[i]),
    ensures
        sanitize_spec(s) == s,
    decreases s.len(),
{
    if s.len() == 0 {
        assert(sanitize_spec(s) =~= s);
    } else {
        assert(legal_char(s.last()));
        lemma_sanitize_all_legal(s.drop_last());
        assert(sanitize_spec(s.drop_last()).push(s.last()) =~= s);
    }
}

/// Sanitization is idempotent: sanitizing a second time changes nothing.
pub proof fn lemma_sanitize_idempotent(s: Seq<char>)
    ensures
        sanitize_spec(sanitize_spec(s)) == sanitize_spec(s),
{
    lemma_sanitize_clean(s);
    lemma_sanitize_all_legal(sanitize_spec(s));
}

/// Whether this character may stay in a file name.
fn char_is_legal(c: char) -> (b: bool)
    ensures
        b == legal_char(c),
{
    !(c == '<' || c == '>' || c == ':' || c == '"' || c == '/' || c == '\\' || c == '|' || c == '?'
        || c == '*')
}

/// Removes the characters of the fixed denylist (`< > : " / \ | ? *`) that
/// are illegal in file names on common filesystems, keeping all others in
/// order.
pub fn replace_illegal_characters(s: &str) -> (r: String)
    ensures
        r@ == sanitize_spec(s@),
{
    let chars = str_to_chars(s);
    let mut kept: Vec<char> = Vec::new();
    let mut i: usize = 0;
    while i < chars.len()
        invariant
            i <= chars@.len(),
            chars@ == s@,
            kept@ == sanitize_spec(s@.subrange(0, i as int)),
        decreases chars@.len() - i,
    {
        let c = chars[i];
        if char_is_legal(c) {
            kept.push(c);
        }
        proof {
            let pre = s@.subrange(0, i as int);
            let ext = s@.subrange(0, i + 1 as int);
            assert(ext.drop_last() =~= pre);
            assert(ext.last() == s@[i as int]);
        }
        i = i + 1;
    }
    proof {
        assert(s@.subrange(0, s@.len() as int) =~= s@);
    }
    string_from_chars(&kept)
}

/// Builds the `"{artist} - {title}.mp3"` file name for a track, with the
/// illegal characters removed.
pub fn format_title(artist: &str, title: &str) -> (r: String)
    ensures
        r@ == sanitize_spec(artist@ + " - "@ + title@ + ".mp3"@),
{
    let mut s = String::from_str(artist);
    s.append(" - ");
    s.append(title);
    s.append(".mp3");
    replace_illegal_characters(s.as_str())
}

/// Builds the `"{title}.{extension}"` file name for a downloaded item, with
/// the illegal characters removed from the title.
pub fn format_filename(title: &str, extension: &str) -> (r: String)
    ensures
        r@ == sanitize_spec(title@) + "."@ + extension@,
{
    let mut s = replace_illegal_characters(title);
    s.append(".");
    s.append(extension);
    s
}

} // verus!

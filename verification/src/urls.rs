use vstd::prelude::*;

use crate::codec::{is_digit_char, lemma_digit_run_end_at, spec_digit_run_end};
use crate::text::{chars_to_string, to_chars};

verus! {

/// Video and track links are recognized by scanning chat text for the
/// small fixed grammars below: a scheme, an optional `www.` prefix, a
/// host-and-path literal, then an identifier. The scan finds the
/// leftmost match, like the pattern matching it replaces.

/// ASCII letters and digits.
pub open spec fn is_alnum(c: char) -> bool {
    (48 <= c as u32 <= 57) || (65 <= c as u32 <= 90) || (97 <= c as u32 <= 122)
}

/// The identifier alphabet of short links and video ids.
pub open spec fn is_id_char(c: char) -> bool {
    is_alnum(c) || c == '_' || c == '-'
}

pub open spec fn is_digit(c: char) -> bool {
    is_digit_char(c)
}

/// `http://` or `https://` begins at `i`, ending at the returned
/// position.
pub open spec fn scheme_end(s: Seq<char>, i: int) -> Option<int> {
    if i + 7 <= s.len() && s.subrange(i, i + 7) == "http://"@ {
        Some(i + 7)
    } else if i + 8 <= s.len() && s.subrange(i, i + 8) == "https://"@ {
        Some(i + 8)
    } else {
        None
    }
}

/// The scheme, then an optional `www.`, then the given host literal,
/// all beginning at `i`; the returned position is just after the host.
pub open spec fn host_end(s: Seq<char>, i: int, host: Seq<char>) -> Option<int> {
    match scheme_end(s, i) {
        None => None,
        Some(h) => {
            let b = if h + 4 <= s.len() && s.subrange(h, h + 4) == "www."@ {
                h + 4
            } else {
                h
            };
            if b + host.len() <= s.len() && s.subrange(b, b + host.len() as int) == host {
                Some(b + host.len() as int)
            } else {
                None
            }
        },
    }
}

/// A fixed-length identifier over the link alphabet follows at `i`.
pub open spec fn id_at(s: Seq<char>, i: int, len: int) -> bool {
    i + len <= s.len() && forall|k: int| i <= k < i + len ==> is_id_char(#[trigger] s[k])
}

/// A match of `host` + an identifier of exactly `len` characters starts
/// at position `i`.
pub open spec fn link_match_at(s: Seq<char>, i: int, host: Seq<char>, len: int) -> bool {
    match host_end(s, i, host) {
        Some(b) => id_at(s, b, len),
        None => false,
    }
}

/// Somewhere in the text a `host` link continuing with a digit begins.
pub open spec fn has_digit_link(s: Seq<char>, host: Seq<char>) -> bool {
    exists|i: int|
        0 <= i < s.len() && (#[trigger] host_end(s, i, host) matches Some(b) && b < s.len()
            && is_digit(s[b]))
}

/// Somewhere in the text a whole `host` short link begins: exactly seven
/// identifier characters and nothing longer.
pub open spec fn has_short_link(s: Seq<char>, host: Seq<char>) -> bool {
    exists|i: int|
        0 <= i < s.len() && (#[trigger] host_end(s, i, host) matches Some(b) && id_at(s, b, 7)
            && !id_at(s, b + 7, 1))
}

/// Somewhere in the text a `host` link continuing with a letter or digit
/// begins.
pub open spec fn has_alnum_link(s: Seq<char>, host: Seq<char>) -> bool {
    exists|i: int|
        0 <= i < s.len() && (#[trigger] host_end(s, i, host) matches Some(b) && b < s.len()
            && is_alnum(s[b]))
}

/// Somewhere in the text a `host` link with an identifier of exactly
/// `len` characters begins.
pub open spec fn has_link_match(s: Seq<char>, host: Seq<char>, len: int) -> bool {
    exists|i: int| 0 <= i < s.len() && link_match_at(s, i, host, len)
}

/// The identifier text of the leftmost `host` link with at least `len`
/// identifier characters: the first `len` of them.
pub open spec fn link_text_ok(s: Seq<char>, host: Seq<char>, len: int, code: Seq<char>) -> bool {
    exists|i: int|
        0 <= i < s.len() && #[trigger] link_match_at(s, i, host, len) && (forall|p: int|
            0 <= p < i ==> !link_match_at(s, p, host, len)) && code == s.subrange(
            host_end(s, i, host)->Some_0,
            host_end(s, i, host)->Some_0 + len,
        )
}

/// The digit text of the leftmost `host` link continuing with a digit:
/// the whole maximal digit run.
pub open spec fn digit_link_text_ok(s: Seq<char>, host: Seq<char>, digits: Seq<char>) -> bool {
    exists|i: int|
        0 <= i < s.len() && (#[trigger] host_end(s, i, host) matches Some(b) && b < s.len()
            && is_digit(s[b]) && (forall|p: int|
            0 <= p < i ==> !(#[trigger] host_end(s, p, host) matches Some(b2) && b2 < s.len()
                && is_digit(s[b2]))) && digits == s.subrange(b, spec_digit_run_end(s, b)))
}

/// The whole text of the leftmost `host` short link, from its scheme
/// through the seventh identifier character.
pub open spec fn short_link_text_ok(s: Seq<char>, host: Seq<char>, url: Seq<char>) -> bool {
    exists|i: int|
        0 <= i < s.len() && (#[trigger] host_end(s, i, host) matches Some(b) && id_at(s, b, 7)
            && !id_at(s, b + 7, 1) && (forall|p: int|
            0 <= p < i ==> !(#[trigger] host_end(s, p, host) matches Some(b2) && id_at(s, b2, 7)
                && !id_at(s, b2 + 7, 1))) && url == s.subrange(i, b + 7))
}

/// The end of the letter-and-digit run starting at `i`.
pub open spec fn alnum_run_end(s: Seq<char>, i: int) -> int
    decreases s.len() - i,
{
    if 0 <= i < s.len() && is_alnum(s[i]) {
        alnum_run_end(s, i + 1)
    } else {
        i
    }
}

proof fn lemma_alnum_run_end_at(s: Seq<char>, a: int, b: int)
    requires
        0 <= a <= b <= s.len(),
        forall|k: int| a <= k < b ==> is_alnum(#[trigger] s[k]),
        b == s.len() || !is_alnum(s[b]),
    ensures
        alnum_run_end(s, a) == b,
    decreases b - a,
{
    if a < b {
        lemma_alnum_run_end_at(s, a + 1, b);
    }
}

/// The track id of the leftmost `host` link continuing with a letter or
/// digit: the whole maximal run.
pub open spec fn alnum_link_text_ok(s: Seq<char>, host: Seq<char>, code: Seq<char>) -> bool {
    exists|i: int|
        0 <= i < s.len() && (#[trigger] host_end(s, i, host) matches Some(b) && b < s.len()
            && is_alnum(s[b]) && (forall|p: int|
            0 <= p < i ==> !(#[trigger] host_end(s, p, host) matches Some(b2) && b2 < s.len()
                && is_alnum(s[b2]))) && code == s.subrange(b, alnum_run_end(s, b)))
}

fn is_id_char_exec(c: char) -> (r: bool)
    ensures
        r == is_id_char(c),
{
    let u = c as u32;
    (48 <= u && u <= 57) || (65 <= u && u <= 90) || (97 <= u && u <= 122) || c == '_' || c == '-'
}

fn is_digit_exec(c: char) -> (r: bool)
    ensures
        r == is_digit(c),
{
    let u = c as u32;
    48 <= u && u <= 57
}

/// Whether the literal `lit` occupies `[i, i+lit.len())` of `s`.
fn lit_at(s: &Vec<char>, i: usize, lit: &Vec<char>) -> (r: bool)
    requires
        i <= s@.len(),
    ensures
        r == (i + lit@.len() <= s@.len() && s@.subrange(i as int, i + lit@.len()) == lit@),
{
    let m = lit.len();
    let n = s.len();
    if n - i < m {
        return false;
    }
    let mut k: usize = 0;
    while k < m
        invariant
            k <= m,
            m == lit@.len(),
            n == s@.len(),
            i + m <= n,
            forall|j: int| 0 <= j < k ==> s@[i + j] == lit@[j],
        decreases m - k,
    {
        if s[i + k] != lit[k] {
            proof {
                assert(s@.subrange(i as int, i + lit@.len())[k as int] != lit@[k as int]);
            }
            return false;
        }
        k += 1;
    }
    proof {
        assert(s@.subrange(i as int, i + lit@.len()) =~= lit@);
    }
    true
}

/// The end of the scheme beginning at `i`, if one does.
fn scheme_end_exec(s: &Vec<char>, i: usize) -> (r: Option<usize>)
    requires
        i <= s@.len(),
    ensures
        r matches Some(j) ==> scheme_end(s@, i as int) == Some(j as int) && i < j <= s@.len(),
        r is None ==> scheme_end(s@, i as int) is None,
{
    let n = s.len();
    let http = to_chars("http://");
    let https = to_chars("https://");
    proof {
        reveal_strlit("http://");
        reveal_strlit("https://");
    }
    if lit_at(s, i, &http) {
        proof {
            assert(i + 7 <= n);
        }
        Some(i + 7)
    } else if lit_at(s, i, &https) {
        proof {
            assert(i + 8 <= n);
        }
        Some(i + 8)
    } else {
        None
    }
}

/// The end of scheme + optional `www.` + `host` beginning at `i`.
fn host_end_exec(s: &Vec<char>, i: usize, host: &Vec<char>) -> (r: Option<usize>)
    requires
        i <= s@.len(),
    ensures
        r matches Some(j) ==> host_end(s@, i as int, host@) == Some(j as int) && i < j <= s@.len(),
        r is None ==> host_end(s@, i as int, host@) is None,
{
    let n = s.len();
    let h = match scheme_end_exec(s, i) {
        Some(h) => h,
        None => {
            return None;
        },
    };
    let www = to_chars("www.");
    proof {
        reveal_strlit("www.");
    }
    let b = if lit_at(s, h, &www) {
        proof {
            assert(h + 4 <= n);
        }
        h + 4
    } else {
        h
    };
    if lit_at(s, b, host) {
        let m = host.len();
        proof {
            assert(b + m <= n);
        }
        Some(b + m)
    } else {
        None
    }
}

/// Whether an identifier of exactly `len` characters begins at `i`.
fn id_at_exec(s: &Vec<char>, i: usize, len: usize) -> (r: bool)
    requires
        i <= s@.len(),
    ensures
        r == id_at(s@, i as int, len as int),
{
    let n = s.len();
    if n - i < len {
        return false;
    }
    let mut k: usize = 0;
    while k < len
        invariant
            k <= len,
            n == s@.len(),
            i + len <= n,
            forall|j: int| i <= j < i + k ==> is_id_char(#[trigger] s@[j]),
        decreases len - k,
    {
        if !is_id_char_exec(s[i + k]) {
            return false;
        }
        k += 1;
    }
    true
}

/// The digits after the leftmost `host` link whose path continues with
/// digits; the run is maximal. `None` exactly when no such link occurs.
fn find_link_digits(s: &Vec<char>, host: &Vec<char>) -> (r: Option<String>)
    ensures
        r is Some <==> has_digit_link(s@, host@),
        r matches Some(d) ==> digit_link_text_ok(s@, host@, d@),
{
    let n = s.len();
    let mut i: usize = 0;
    while i < n
        invariant
            i <= n,
            n == s@.len(),
            forall|p: int|
                0 <= p < i ==> !(#[trigger] host_end(s@, p, host@) matches Some(b) && b < s@.len()
                    && is_digit(s@[b])),
        decreases n - i,
    {
        match host_end_exec(s, i, host) {
            Some(b) => {
                if b < n && is_digit_exec(s[b]) {
                    proof {
                        assert(host_end(s@, i as int, host@) matches Some(bb) && bb < s@.len()
                            && is_digit(s@[bb]));
                    }
                    let mut id: Vec<char> = Vec::new();
                    let mut k = b;
                    while k < n && is_digit_exec(s[k])
                        invariant
                            b <= k <= n,
                            n == s@.len(),
                            id@ == s@.subrange(b as int, k as int),
                            forall|m: int| b <= m < k ==> is_digit_char(#[trigger] s@[m]),
                        decreases n - k,
                    {
                        id.push(s[k]);
                        proof {
                            assert(id@ =~= s@.subrange(b as int, k + 1));
                        }
                        k += 1;
                    }
                    proof {
                        lemma_digit_run_end_at(s@, b as int, k as int);
                        assert(id@ == s@.subrange(b as int, spec_digit_run_end(s@, b as int)));
                    }
                    return Some(chars_to_string(&id));
                }
            },
            None => {},
        }
        i += 1;
    }
    None
}

/// A recognized video link: a numeric id, or a ten-character code.
#[derive(Debug, PartialEq)]
pub enum VideoID {
    AV(String),
    BV(String),
}

/// The leftmost numeric video link (`.../video/av` then digits) or,
/// failing that, the leftmost code link (`.../video/BV` then exactly ten
/// identifier characters).
pub fn parse_raw_video_id(text: &str) -> (r: Option<VideoID>)
    ensures
        r matches Some(v) ==> (v is AV <==> has_digit_link(text@, "bilibili.com/video/av"@)),
        r is Some <==> (has_digit_link(text@, "bilibili.com/video/av"@) || has_link_match(
            text@,
            "bilibili.com/video/BV"@,
            10,
        )),
        r matches Some(v) ==> (v matches VideoID::AV(d) ==> digit_link_text_ok(
            text@,
            "bilibili.com/video/av"@,
            d@,
        )),
        r matches Some(v) ==> (v matches VideoID::BV(c) ==> exists|code: Seq<char>|
            #[trigger] link_text_ok(text@, "bilibili.com/video/BV"@, 10, code) && c@ == "BV"@
                + code),
{
    let s = to_chars(text);
    let av_host = to_chars("bilibili.com/video/av");
    match find_link_digits(&s, &av_host) {
        Some(digits) => {
            return Some(VideoID::AV(digits));
        },
        None => {},
    }
    let bv_host = to_chars("bilibili.com/video/BV");
    match find_link_prefixed(&s, &bv_host, 10) {
        Some(code) => {
            let mut full = String::from_str("BV");
            full.append(code.as_str());
            proof {
                assert(link_text_ok(text@, "bilibili.com/video/BV"@, 10, code@));
            }
            Some(VideoID::BV(full))
        },
        None => None,
    }
}

/// The identifier of the leftmost `host` link with at least `len`
/// identifier characters; the first `len` of them are taken.
fn find_link_prefixed(s: &Vec<char>, host: &Vec<char>, len: usize) -> (r: Option<String>)
    ensures
        r is Some <==> has_link_match(s@, host@, len as int),
        r matches Some(c) ==> link_text_ok(s@, host@, len as int, c@),
{
    let n = s.len();
    let mut i: usize = 0;
    while i < n
        invariant
            i <= n,
            n == s@.len(),
            forall|p: int| 0 <= p < i ==> !link_match_at(s@, p, host@, len as int),
        decreases n - i,
    {
        match host_end_exec(s, i, host) {
            Some(b) => {
                if id_at_exec(s, b, len) {
                    proof {
                        assert(link_match_at(s@, i as int, host@, len as int));
                        assert(host_end(s@, i as int, host@) == Some(b as int));
                    }
                    let mut id: Vec<char> = Vec::new();
                    let mut k: usize = 0;
                    while k < len
                        invariant
                            k <= len,
                            n == s@.len(),
                            b + len <= n,
                            id@ == s@.subrange(b as int, b + k as int),
                        decreases len - k,
                    {
                        id.push(s[b + k]);
                        proof {
                            assert(id@ =~= s@.subrange(b as int, b + k + 1));
                        }
                        k += 1;
                    }
                    proof {
                        assert(link_match_at(s@, i as int, host@, len as int));
                    }
                    return Some(chars_to_string(&id));
                }
            },
            None => {},
        }
        i += 1;
    }
    None
}

/// The whole leftmost short link (`b23.tv` or `bili2233.cn`, seven
/// identifier characters, nothing longer), scheme included.
pub fn parse_short_url(text: &str) -> (r: Option<String>)
    ensures
        r is Some <==> (has_short_link(text@, "b23.tv/"@) || has_short_link(
            text@,
            "bili2233.cn/"@,
        )),
        has_short_link(text@, "b23.tv/"@) ==> (r matches Some(u) && short_link_text_ok(
            text@,
            "b23.tv/"@,
            u@,
        )),
        !has_short_link(text@, "b23.tv/"@) && has_short_link(text@, "bili2233.cn/"@) ==> (r matches
        Some(u) && short_link_text_ok(text@, "bili2233.cn/"@, u@)),
{
    let s = to_chars(text);
    let host1 = to_chars("b23.tv/");
    match find_short(&s, &host1) {
        Some(url) => {
            return Some(url);
        },
        None => {},
    }
    let host2 = to_chars("bili2233.cn/");
    find_short(&s, &host2)
}

/// The whole leftmost `host` short link with exactly seven identifier
/// characters, from its scheme to the end of the identifier. `None`
/// exactly when no such link occurs.
fn find_short(s: &Vec<char>, host: &Vec<char>) -> (r: Option<String>)
    ensures
        r is Some <==> has_short_link(s@, host@),
        r matches Some(u) ==> short_link_text_ok(s@, host@, u@),
{
    let n = s.len();
    let mut i: usize = 0;
    while i < n
        invariant
            i <= n,
            n == s@.len(),
            forall|p: int|
                0 <= p < i ==> !(#[trigger] host_end(s@, p, host@) matches Some(b) && id_at(
                    s@,
                    b,
                    7,
                ) && !id_at(s@, b + 7, 1)),
        decreases n - i,
    {
        match host_end_exec(s, i, host) {
            Some(b) => {
                if id_at_exec(s, b, 7) && !id_at_exec(s, b + 7, 1) {
                    proof {
                        assert(b + 7 <= n);
                        assert(host_end(s@, i as int, host@) matches Some(bb) && id_at(s@, bb, 7)
                            && !id_at(s@, bb + 7, 1));
                    }
                    let mut url: Vec<char> = Vec::new();
                    let mut k = i;
                    let stop = b + 7;
                    while k < stop
                        invariant
                            i <= k <= stop,
                            stop <= s@.len(),
                            url@ == s@.subrange(i as int, k as int),
                        decreases stop - k,
                    {
                        url.push(s[k]);
                        proof {
                            assert(url@ =~= s@.subrange(i as int, k + 1));
                        }
                        k += 1;
                    }
                    return Some(chars_to_string(&url));
                }
            },
            None => {},
        }
        i += 1;
    }
    None
}

/// The leftmost video id in a watch, embed, short or shorts link:
/// exactly eleven identifier characters after the link's path.
pub fn parse_video_id(text: &str) -> (r: Option<String>)
    ensures
        r is Some <==> (has_link_match(text@, "youtube.com/watch?v="@, 11) || has_link_match(
            text@,
            "youtube.com/embed/"@,
            11,
        ) || has_link_match(text@, "youtu.be/"@, 11) || has_link_match(
            text@,
            "youtube.com/shorts/"@,
            11,
        )),
        has_link_match(text@, "youtube.com/watch?v="@, 11) ==> (r matches Some(c) && link_text_ok(
            text@,
            "youtube.com/watch?v="@,
            11,
            c@,
        )),
        !has_link_match(text@, "youtube.com/watch?v="@, 11) && has_link_match(
            text@,
            "youtube.com/embed/"@,
            11,
        ) ==> (r matches Some(c) && link_text_ok(text@, "youtube.com/embed/"@, 11, c@)),
        !has_link_match(text@, "youtube.com/watch?v="@, 11) && !has_link_match(
            text@,
            "youtube.com/embed/"@,
            11,
        ) && has_link_match(text@, "youtu.be/"@, 11) ==> (r matches Some(c) && link_text_ok(
            text@,
            "youtu.be/"@,
            11,
            c@,
        )),
        !has_link_match(text@, "youtube.com/watch?v="@, 11) && !has_link_match(
            text@,
            "youtube.com/embed/"@,
            11,
        ) && !has_link_match(text@, "youtu.be/"@, 11) && has_link_match(
            text@,
            "youtube.com/shorts/"@,
            11,
        ) ==> (r matches Some(c) && link_text_ok(text@, "youtube.com/shorts/"@, 11, c@)),
{
    let s = to_chars(text);
    match find_link_prefixed(&s, &to_chars("youtube.com/watch?v="), 11) {
        Some(code) => {
            return Some(code);
        },
        None => {},
    }
    match find_link_prefixed(&s, &to_chars("youtube.com/embed/"), 11) {
        Some(code) => {
            return Some(code);
        },
        None => {},
    }
    match find_link_prefixed(&s, &to_chars("youtu.be/"), 11) {
        Some(code) => {
            return Some(code);
        },
        None => {},
    }
    find_link_prefixed(&s, &to_chars("youtube.com/shorts/"), 11)
}

/// The leftmost track id in a track link: the identifier characters
/// after the track path, of any positive length.
pub fn parse_track_id(text: &str) -> (r: Option<String>)
    ensures
        r is Some <==> has_alnum_link(text@, "open.spotify.com/track/"@),
        r matches Some(c) ==> alnum_link_text_ok(text@, "open.spotify.com/track/"@, c@),
{
    let s = to_chars(text);
    let host = to_chars("open.spotify.com/track/");
    let n = s.len();
    let mut i: usize = 0;
    while i < n
        invariant
            i <= n,
            n == s@.len(),
            s@ == text@,
            host@ == "open.spotify.com/track/"@,
            forall|p: int|
                0 <= p < i ==> !(#[trigger] host_end(s@, p, host@) matches Some(b) && b < s@.len()
                    && is_alnum(s@[b])),
        decreases n - i,
    {
        match host_end_exec(&s, i, &host) {
            Some(b) => {
                if b < n && is_alnum_exec(s[b]) {
                    proof {
                        assert(host_end(text@, i as int, "open.spotify.com/track/"@) == host_end(
                            s@,
                            i as int,
                            host@,
                        ));
                        assert(host_end(text@, i as int, "open.spotify.com/track/"@) matches Some(
                            bb,
                        ) && bb < text@.len() && is_alnum(text@[bb]));
                        assert(has_alnum_link(text@, "open.spotify.com/track/"@));
                    }
                    let mut id: Vec<char> = Vec::new();
                    let mut k = b;
                    while k < n && is_alnum_exec(s[k])
                        invariant
                            b <= k <= n,
                            n == s@.len(),
                            s@ == text@,
                            id@ == s@.subrange(b as int, k as int),
                            forall|m: int| b <= m < k ==> is_alnum(#[trigger] s@[m]),
                        decreases n - k,
                    {
                        id.push(s[k]);
                        proof {
                            assert(id@ =~= s@.subrange(b as int, k + 1));
                        }
                        k += 1;
                    }
                    proof {
                        lemma_alnum_run_end_at(s@, b as int, k as int);
                        assert(id@ == s@.subrange(b as int, alnum_run_end(s@, b as int)));
                    }
                    return Some(chars_to_string(&id));
                }
            },
            None => {},
        }
        i += 1;
    }
    None
}

fn is_alnum_exec(c: char) -> (r: bool)
    ensures
        r == is_alnum(c),
{
    let u = c as u32;
    (48 <= u && u <= 57) || (65 <= u && u <= 90) || (97 <= u && u <= 122)
}

/// One thumbnail of a video, by URL.
#[derive(Debug, PartialEq)]
pub struct Thumbnail {
    pub url: String,
}

/// The thumbnails a video offers, by size; any of them may be missing.
#[derive(Debug, PartialEq)]
pub struct Thumbnails {
    pub default: Option<Thumbnail>,
    pub medium: Option<Thumbnail>,
    pub high: Option<Thumbnail>,
    pub standard: Option<Thumbnail>,
    pub maxres: Option<Thumbnail>,
}

impl Thumbnails {
    /// The URL that a thumbnail set prefers: the largest size present.
    pub open spec fn spec_get(&self) -> Option<Seq<char>> {
        if self.maxres is Some {
            Some(self.maxres->Some_0.url@)
        } else if self.standard is Some {
            Some(self.standard->Some_0.url@)
        } else if self.high is Some {
            Some(self.high->Some_0.url@)
        } else if self.medium is Some {
            Some(self.medium->Some_0.url@)
        } else if self.default is Some {
            Some(self.default->Some_0.url@)
        } else {
            None
        }
    }

    /// The URL of the largest thumbnail present, if any.
    pub fn get(&self) -> (r: Option<&str>)
        ensures
            r matches Some(u) ==> self.spec_get() == Some(u@),
            r is None ==> self.spec_get() is None,
    {
        match &self.maxres {
            Some(t) => Some(t.url.as_str()),
            None => match &self.standard {
                Some(t) => Some(t.url.as_str()),
                None => match &self.high {
                    Some(t) => Some(t.url.as_str()),
                    None => match &self.medium {
                        Some(t) => Some(t.url.as_str()),
                        None => match &self.default {
                            Some(t) => Some(t.url.as_str()),
                            None => None,
                        },
                    },
                },
            },
        }
    }
}

/// One artist credited on an album.
#[derive(Debug, PartialEq)]
pub struct Artist {
    pub name: String,
}

/// One cover image of an album, by URL.
#[derive(Debug, PartialEq)]
pub struct Image {
    pub url: String,
}

/// What a track's album carries: its name, release date fields, its
/// artists, and its cover images from largest to smallest.
#[derive(Debug, PartialEq)]
pub struct Album {
    pub name: String,
    pub release_date: String,
    pub release_date_precision: String,
    pub artists: Vec<Artist>,
    pub images: Vec<Image>,
}

/// Artist names joined by a comma and a space.
pub open spec fn spec_artists_text(artists: Seq<Artist>) -> Seq<char>
    decreases artists.len(),
{
    if artists.len() == 0 {
        Seq::empty()
    } else if artists.len() == 1 {
        artists[0].name@
    } else {
        spec_artists_text(artists.drop_last()) + ", "@ + artists.last().name@
    }
}

impl Album {
    /// The cover image of middling size: the middle entry of the
    /// largest-first list, avoiding the extremes.
    pub fn get_image(&self) -> (r: Option<&str>)
        ensures
            self.images@.len() > 0 ==> (r matches Some(u) && u@ == self.images@[(
            self.images@.len() / 2) as int].url@),
            self.images@.len() == 0 ==> r is None,
    {
        let mid = self.images.len() / 2;
        if mid < self.images.len() {
            Some(self.images[mid].url.as_str())
        } else {
            None
        }
    }

    /// The credited artists, joined by a comma and a space.
    pub fn get_artists(&self) -> (r: String)
        ensures
            r@ == spec_artists_text(self.artists@),
    {
        let mut text = String::new();
        let n = self.artists.len();
        let mut i: usize = 0;
        while i < n
            invariant
                i <= n,
                n == self.artists@.len(),
                text@ == spec_artists_text(self.artists@.subrange(0, i as int)),
            decreases n - i,
        {
            if i > 0 {
                text.append(", ");
            }
            text.append(self.artists[i].name.as_str());
            proof {
                assert(self.artists@.subrange(0, i + 1).drop_last() =~= self.artists@.subrange(
                    0,
                    i as int,
                ));
                assert(self.artists@.subrange(0, i + 1).last() == self.artists@[i as int]);
            }
            i += 1;
        }
        proof {
            assert(self.artists@.subrange(0, n as int) =~= self.artists@);
        }
        text
    }

    /// The release moment as the text an exact-timestamp parser takes:
    /// the date filled out to midnight, with the missing month and day
    /// of coarser precisions as January the first. A precision other
    /// than year, month or day yields nothing.
    pub fn release_time_text(&self) -> (r: Option<String>)
        ensures
            self.release_date_precision@ == "year"@ ==> (r matches Some(t) && t@
                == self.release_date@ + "-01-01T00:00:00Z"@),
            self.release_date_precision@ == "month"@ ==> (r matches Some(t) && t@
                == self.release_date@ + "-01T00:00:00Z"@),
            self.release_date_precision@ == "day"@ ==> (r matches Some(t) && t@
                == self.release_date@ + "T00:00:00Z"@),
            !(self.release_date_precision@ == "year"@ || self.release_date_precision@ == "month"@
                || self.release_date_precision@ == "day"@) ==> r is None,
    {
        proof {
            reveal_strlit("year");
            reveal_strlit("month");
            reveal_strlit("day");
            assert("year"@.len() == 4);
            assert("month"@.len() == 5);
            assert("day"@.len() == 3);
        }
        let precision = &self.release_date_precision;
        let mut text = self.release_date.clone();
        if crate::text::str_eq(precision.as_str(), "year") {
            text.append("-01-01T00:00:00Z");
            Some(text)
        } else if crate::text::str_eq(precision.as_str(), "month") {
            text.append("-01T00:00:00Z");
            Some(text)
        } else if crate::text::str_eq(precision.as_str(), "day") {
            text.append("T00:00:00Z");
            Some(text)
        } else {
            None
        }
    }
}

} // verus!

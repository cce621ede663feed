//! URL canonicalization: maps an absolute upstream URL to a local proxy
//! path through a fixed table of domain rules, or passes foreign URLs
//! through unchanged. Sentinel values and unmatched shapes on proxied
//! domains yield the empty string, so an unrecognized URL on a proxied
//! domain is dropped rather than leaked.

use vstd::prelude::*;

use crate::strutil::{find_at, line_end, line_end_from, starts_with_at, find_from, starts_with_from};

verus! {

/// Domain of a string parsed as an absolute URL: the host, when the
/// string parses and its host is a domain name; nothing otherwise.
pub uninterp spec fn url_domain_of(s: Seq<char>) -> Option<Seq<char>>;

/// Query pairs of a string parsed as an absolute URL, in order of
/// appearance; nothing when the string does not parse.
pub uninterp spec fn url_query_pairs_of(s: Seq<char>) -> Option<Seq<(Seq<char>, Seq<char>)>>;

/// Relies on url::Url::parse and url::Url::domain: the domain of an
/// absolute URL, when the input parses and its host is a domain name.
#[verifier::external_body]
fn url_domain(url: &str) -> (r: Option<String>)
    ensures
        match r {
            Option::Some(d) => url_domain_of(url@) == Option::Some(d@),
            Option::None => url_domain_of(url@) is None,
        },
{
    match url::Url::parse(url) {
        Ok(u) => u.domain().map(|d| d.to_string()),
        Err(_) => None,
    }
}

/// Relies on url::Url::parse and url::Url::query_pairs: the decoded
/// form-urlencoded query pairs of an absolute URL, in order.
#[verifier::external_body]
fn url_query_pairs(url: &str) -> (r: Option<Vec<(String, String)>>)
    ensures
        match r {
            Option::Some(q) => url_query_pairs_of(url@) == Option::Some(q.deep_view()),
            Option::None => url_query_pairs_of(url@) is None,
        },
{
    match url::Url::parse(url) {
        Ok(u) => Some(u.query_pairs().into_owned().collect()),
        Err(_) => None,
    }
}

/// End of a scheme-and-host prefix occurring at `i`: the pattern is
/// `https://` or `http://` (in that priority order) followed by `rest`.
pub open spec fn host_prefix_end(t: Seq<char>, rest: Seq<char>, i: int) -> Option<int> {
    if starts_with_at(t, "https://"@ + rest, i) {
        Some(i + ("https://"@ + rest).len() as int)
    } else if starts_with_at(t, "http://"@ + rest, i) {
        Some(i + ("http://"@ + rest).len() as int)
    } else {
        None
    }
}

/// First occurrence, at or after `i`, of a scheme-and-host prefix:
/// the start of the match and the index just past the prefix.
pub open spec fn find_host_prefix(t: Seq<char>, rest: Seq<char>, i: int) -> Option<(int, int)>
    decreases t.len() - i,
{
    if i < 0 || i > t.len() {
        None
    } else {
        match host_prefix_end(t, rest, i) {
            Option::Some(e) => Some((i, e)),
            Option::None => if i == t.len() {
                None
            } else {
                find_host_prefix(t, rest, i + 1)
            },
        }
    }
}

/// A single-capture domain rule: at the first occurrence of the
/// scheme-and-host prefix, the capture is the rest of that line; the
/// result prefixes it with `out`. No occurrence yields the empty string.
pub open spec fn capture_tail(t: Seq<char>, rest: Seq<char>, out: Seq<char>) -> Seq<char> {
    match find_host_prefix(t, rest, 0) {
        Option::None => Seq::<char>::empty(),
        Option::Some((s, e)) => out + t.subrange(e, line_end(t, e)),
    }
}

/// A two-capture domain rule (host, then a path with at least one
/// further `/` on the same line): the two captures joined by `/` are
/// exactly the rest of the line, so the result prefixes it with `out`.
/// A tail without `/` does not match and yields the empty string.
pub open spec fn capture_two(t: Seq<char>, rest: Seq<char>, out: Seq<char>) -> Seq<char> {
    match find_host_prefix(t, rest, 0) {
        Option::None => Seq::<char>::empty(),
        Option::Some((s, e)) => {
            let le = line_end(t, e);
            match find_at(t, seq!['/'], e) {
                Option::Some(j) => if j < le {
                    out + t.subrange(e, le)
                } else {
                    Seq::<char>::empty()
                },
                Option::None => Seq::<char>::empty(),
            }
        },
    }
}

/// A decimal digit.
pub open spec fn is_digit(c: char) -> bool {
    c == '0' || c == '1' || c == '2' || c == '3' || c == '4' || c == '5' || c == '6' || c == '7'
        || c == '8' || c == '9'
}

/// `k` decimal digits occur at `q`.
pub open spec fn digits_at(t: Seq<char>, q: int, k: int) -> bool {
    0 <= q && q + k <= t.len() && (forall|m: int| 0 <= m < k ==> is_digit(#[trigger] t[q + m]))
}

/// Length of the suffix allowed after the resolution digits of a DASH
/// segment: `.mp4`, the end of the text, or `?source=fallback`, in that
/// priority order.
pub open spec fn dash_suffix_len(t: Seq<char>, q: int) -> Option<int> {
    if starts_with_at(t, ".mp4"@, q) {
        Some(4int)
    } else if q == t.len() {
        Some(0int)
    } else if starts_with_at(t, "?source=fallback"@, q) {
        Some(16int)
    } else {
        None
    }
}

/// Length of a resolution group at `q`: two to four digits (longest
/// first) followed by an allowed suffix.
pub open spec fn dash_group_len(t: Seq<char>, q: int) -> Option<int> {
    if digits_at(t, q, 4) && dash_suffix_len(t, q + 4) is Some {
        Some(4 + dash_suffix_len(t, q + 4)->Some_0)
    } else if digits_at(t, q, 3) && dash_suffix_len(t, q + 3) is Some {
        Some(3 + dash_suffix_len(t, q + 3)->Some_0)
    } else if digits_at(t, q, 2) && dash_suffix_len(t, q + 2) is Some {
        Some(2 + dash_suffix_len(t, q + 2)->Some_0)
    } else {
        None
    }
}

/// A `/DASH_` segment with a valid resolution group begins at `j`.
pub open spec fn dash_at(t: Seq<char>, j: int) -> bool {
    starts_with_at(t, "/DASH_"@, j) && dash_group_len(t, j + 6) is Some
}

/// Last `j` in `[e, j0]` where a valid DASH segment begins.
pub open spec fn last_dash(t: Seq<char>, e: int, j0: int) -> Option<int>
    decreases j0 - e,
{
    if j0 < e {
        None
    } else if dash_at(t, j0) {
        Some(j0)
    } else if j0 == e {
        None
    } else {
        last_dash(t, e, j0 - 1)
    }
}

/// The video rule for the video host: the path up to the last valid
/// `/DASH_` segment of the first line of the tail becomes the id, and
/// the resolution group keeps its suffix.
pub open spec fn capture_dash(t: Seq<char>) -> Seq<char> {
    match find_host_prefix(t, "v.redd.it/"@, 0) {
        Option::None => Seq::<char>::empty(),
        Option::Some((s, e)) => {
            let le = line_end(t, e);
            match last_dash(t, e, le) {
                Option::None => Seq::<char>::empty(),
                Option::Some(j) => {
                    let gl = dash_group_len(t, j + 6)->Some_0;
                    "/vid/"@ + t.subrange(e, j) + "/"@ + t.subrange(j + 6, j + 6 + gl)
                },
            }
        },
    }
}

/// A `/HLSPlaylist.m3u8` segment begins at `j`.
pub open spec fn hls_at(t: Seq<char>, j: int) -> bool {
    starts_with_at(t, "/HLSPlaylist.m3u8"@, j)
}

/// Last `j` in `(e, j0]` where an HLS playlist segment begins.
pub open spec fn last_hls(t: Seq<char>, e: int, j0: int) -> Option<int>
    decreases j0 - e,
{
    if j0 <= e {
        None
    } else if hls_at(t, j0) {
        Some(j0)
    } else {
        last_hls(t, e, j0 - 1)
    }
}

/// The playlist rule for the video host: a non-empty id, then the
/// playlist segment, which must run to the very end of the text with no
/// line break anywhere after the prefix.
pub open spec fn capture_hls(t: Seq<char>) -> Seq<char> {
    match find_host_prefix(t, "v.redd.it/"@, 0) {
        Option::None => Seq::<char>::empty(),
        Option::Some((s, e)) => {
            if line_end(t, e) != t.len() {
                Seq::<char>::empty()
            } else {
                match last_hls(t, e, t.len() as int) {
                    Option::None => Seq::<char>::empty(),
                    Option::Some(j) => "/hls/"@ + t.subrange(e, j) + "/"@ + t.subrange(
                        j + 1,
                        t.len() as int,
                    ),
                }
            }
        },
    }
}

/// The canonical form of a URL text: shorthand for the dispatch under
/// the domain its text parses to.
pub open spec fn canon_url(u: Seq<char>) -> Seq<char> {
    spec_format_url(u, url_domain_of(u))
}

/// A sentinel meaning "no media": not an error, and never a URL.
pub open spec fn is_sentinel(u: Seq<char>) -> bool {
    u == "self"@ || u == "default"@ || u == "nsfw"@ || u == "spoiler"@
}

/// The canonicalized form of a URL, given the domain its text parses
/// to: empty for empty or sentinel input, unchanged when the text does
/// not parse as a URL with a domain, dispatched through the rule table
/// when the domain is proxied, and unchanged for any other domain.
pub open spec fn spec_format_url(u: Seq<char>, dom: Option<Seq<char>>) -> Seq<char> {
    if u.len() == 0 || is_sentinel(u) {
        Seq::<char>::empty()
    } else {
        match dom {
            Option::None => u,
            Option::Some(d) => {
                if d == "www.reddit.com"@ {
                    capture_tail(u, "www.reddit.com/"@, "/"@)
                } else if d == "old.reddit.com"@ {
                    capture_tail(u, "old.reddit.com/"@, "/"@)
                } else if d == "np.reddit.com"@ {
                    capture_tail(u, "np.reddit.com/"@, "/"@)
                } else if d == "reddit.com"@ {
                    capture_tail(u, "reddit.com/"@, "/"@)
                } else if d == "v.redd.it"@ {
                    if capture_dash(u).len() > 0 {
                        capture_dash(u)
                    } else {
                        capture_hls(u)
                    }
                } else if d == "i.redd.it"@ {
                    capture_tail(u, "i.redd.it/"@, "/img/"@)
                } else if d == "a.thumbs.redditmedia.com"@ {
                    capture_tail(u, "a.thumbs.redditmedia.com/"@, "/thumb/a/"@)
                } else if d == "b.thumbs.redditmedia.com"@ {
                    capture_tail(u, "b.thumbs.redditmedia.com/"@, "/thumb/b/"@)
                } else if d == "emoji.redditmedia.com"@ {
                    capture_two(u, "emoji.redditmedia.com/"@, "/emoji/"@)
                } else if d == "preview.redd.it"@ {
                    capture_tail(u, "preview.redd.it/"@, "/preview/pre/"@)
                } else if d == "external-preview.redd.it"@ {
                    capture_tail(u, "external-preview.redd.it/"@, "/preview/external-pre/"@)
                } else if d == "styles.redditmedia.com"@ {
                    capture_tail(u, "styles.redditmedia.com/"@, "/style/"@)
                } else if d == "www.redditstatic.com"@ {
                    capture_tail(u, "www.redditstatic.com/"@, "/static/"@)
                } else {
                    u
                }
            },
        }
    }
}

/// A found prefix occurrence starts at or after the scan origin and
/// lies within the text.
proof fn lemma_find_host_prefix_some(t: Seq<char>, rest: Seq<char>, i: int)
    requires
        0 <= i <= t.len(),
        find_host_prefix(t, rest, i) is Some,
    ensures
        ({
            let (s, e) = find_host_prefix(t, rest, i)->Some_0;
            i <= s <= e <= t.len() && host_prefix_end(t, rest, s) == Option::Some(e)
        }),
    decreases t.len() - i,
{
    match host_prefix_end(t, rest, i) {
        Option::Some(e) => {
            assert(starts_with_at(t, "https://"@ + rest, i) || starts_with_at(
                t,
                "http://"@ + rest,
                i,
            ));
        },
        Option::None => {
            if i < t.len() {
                lemma_find_host_prefix_some(t, rest, i + 1);
            }
        },
    }
}

/// First occurrence, at or after `from`, of the scheme-and-host prefix
/// `https://rest` or `http://rest`.
pub fn find_host_prefix_from(t: &str, rest: &str, from: usize) -> (r: Option<(usize, usize)>)
    requires
        from <= t@.len(),
    ensures
        match r {
            Option::Some(p) => find_host_prefix(t@, rest@, from as int) == Option::Some(
                (p.0 as int, p.1 as int),
            ) && from <= p.0 <= p.1 <= t@.len(),
            Option::None => find_host_prefix(t@, rest@, from as int) is None,
        },
{
    let mut p1 = String::from_str("https://");
    p1.append(rest);
    let mut p2 = String::from_str("http://");
    p2.append(rest);
    proof {
        assert(p1@ == "https://"@ + rest@);
        assert(p2@ == "http://"@ + rest@);
    }
    let p1len = p1.as_str().unicode_len();
    let p2len = p2.as_str().unicode_len();
    let tlen = t.unicode_len();
    let mut i: usize = from;
    loop
        invariant
            tlen == t@.len(),
            p1@ == "https://"@ + rest@,
            p2@ == "http://"@ + rest@,
            p1len == p1@.len(),
            p2len == p2@.len(),
            from <= i <= tlen,
            find_host_prefix(t@, rest@, from as int) == find_host_prefix(t@, rest@, i as int),
        decreases tlen - i,
    {
        if starts_with_from(t, p1.as_str(), i) {
            return Some((i, i + p1len));
        }
        if starts_with_from(t, p2.as_str(), i) {
            return Some((i, i + p2len));
        }
        if i == tlen {
            return None;
        }
        i += 1;
    }
}

/// Applies a single-capture rule: `out` followed by the first line of
/// what follows the first scheme-and-host prefix occurrence.
fn capture_tail_exec(u: &str, rest: &str, out: &str) -> (r: String)
    ensures
        r@ == capture_tail(u@, rest@, out@),
{
    match find_host_prefix_from(u, rest, 0) {
        Option::None => String::new(),
        Option::Some((_s, e)) => {
            let le = line_end_from(u, e);
            let mut r = String::from_str(out);
            r.append(u.substring_char(e, le));
            r
        },
    }
}

/// Applies the two-capture rule of the emoji host.
fn capture_two_exec(u: &str, rest: &str, out: &str) -> (r: String)
    ensures
        r@ == capture_two(u@, rest@, out@),
{
    match find_host_prefix_from(u, rest, 0) {
        Option::None => String::new(),
        Option::Some((_s, e)) => {
            let le = line_end_from(u, e);
            let slash = "/";
            proof {
                reveal_strlit("/");
                assert(slash@ =~= seq!['/']);
            }
            match find_from(u, slash, e) {
                Option::Some(j) if j < le => {
                    let mut r = String::from_str(out);
                    r.append(u.substring_char(e, le));
                    r
                },
                _ => String::new(),
            }
        },
    }
}

/// Two to four digits (longest first) and an allowed suffix at `q`:
/// the combined length when the group is valid.
fn dash_group_exec(u: &str, q: usize) -> (r: Option<usize>)
    requires
        q <= u@.len(),
    ensures
        match r {
            Option::Some(g) => dash_group_len(u@, q as int) == Option::Some(g as int) && q + g
                <= u@.len(),
            Option::None => dash_group_len(u@, q as int) is None,
        },
{
    let tlen = u.unicode_len();
    if tlen - q >= 4 && digits_exec(u, q, 4) {
        match dash_suffix_exec(u, q + 4) {
            Option::Some(sl) => {
                return Some(4 + sl);
            },
            Option::None => {},
        }
    }
    if tlen - q >= 3 && digits_exec(u, q, 3) {
        match dash_suffix_exec(u, q + 3) {
            Option::Some(sl) => {
                return Some(3 + sl);
            },
            Option::None => {},
        }
    }
    if tlen - q >= 2 && digits_exec(u, q, 2) {
        match dash_suffix_exec(u, q + 2) {
            Option::Some(sl) => {
                return Some(2 + sl);
            },
            Option::None => {},
        }
    }
    None
}

/// `k` decimal digits occur at `q`.
fn digits_exec(u: &str, q: usize, k: usize) -> (r: bool)
    requires
        q + k <= u@.len(),
    ensures
        r == digits_at(u@, q as int, k as int),
{
    let tlen = u.unicode_len();
    let mut m: usize = 0;
    while m < k
        invariant
            tlen == u@.len(),
            q + k <= u@.len(),
            m <= k,
            forall|x: int| 0 <= x < m ==> is_digit(#[trigger] u@[q + x]),
        decreases k - m,
    {
        let c = u.get_char(q + m);
        let ok = c == '0' || c == '1' || c == '2' || c == '3' || c == '4' || c == '5' || c == '6'
            || c == '7' || c == '8' || c == '9';
        if !ok {
            proof {
                assert(!is_digit(u@[q + m]));
            }
            return false;
        }
        m += 1;
    }
    true
}

/// Length of the suffix allowed after the resolution digits.
fn dash_suffix_exec(u: &str, q: usize) -> (r: Option<usize>)
    requires
        q <= u@.len(),
    ensures
        match r {
            Option::Some(sl) => dash_suffix_len(u@, q as int) == Option::Some(sl as int) && q + sl
                <= u@.len() && sl <= 16,
            Option::None => dash_suffix_len(u@, q as int) is None,
        },
{
    proof {
        reveal_strlit(".mp4");
        reveal_strlit("?source=fallback");
    }
    if starts_with_from(u, ".mp4", q) {
        Some(4)
    } else if q == u.unicode_len() {
        Some(0)
    } else if starts_with_from(u, "?source=fallback", q) {
        Some(16)
    } else {
        None
    }
}

/// Applies the video rule of the video host.
fn capture_dash_exec(u: &str) -> (r: String)
    ensures
        r@ == capture_dash(u@),
{
    match find_host_prefix_from(u, "v.redd.it/", 0) {
        Option::None => {
            proof {
                reveal_strlit("v.redd.it/");
            }
            String::new()
        },
        Option::Some((s, e)) => {
            proof {
                reveal_strlit("v.redd.it/");
            }
            let tlen = u.unicode_len();
            let le = line_end_from(u, e);
            let mut j: usize = le;
            loop
                invariant
                    tlen == u@.len(),
                    find_host_prefix(u@, "v.redd.it/"@, 0) == Option::Some(
                        (s as int, e as int),
                    ),
                    le == line_end(u@, e as int),
                    e <= le <= tlen,
                    e <= j <= le,
                    last_dash(u@, e as int, le as int) == last_dash(u@, e as int, j as int),
                decreases j - e,
            {
                if starts_with_from(u, "/DASH_", j) {
                    proof {
                        reveal_strlit("/DASH_");
                    }
                    match dash_group_exec(u, j + 6) {
                        Option::Some(g) => {
                            let mut r = String::from_str("/vid/");
                            r.append(u.substring_char(e, j));
                            r.append("/");
                            r.append(u.substring_char(j + 6, j + 6 + g));
                            proof {
                                assert(dash_at(u@, j as int));
                                assert(last_dash(u@, e as int, j as int) == Option::Some(
                                    j as int,
                                ));
                                assert(r@ =~= capture_dash(u@));
                            }
                            return r;
                        },
                        Option::None => {},
                    }
                }
                proof {
                    reveal_strlit("/DASH_");
                    assert(!dash_at(u@, j as int));
                }
                if j == e {
                    return String::new();
                }
                j -= 1;
            }
        },
    }
}

/// Applies the playlist rule of the video host.
fn capture_hls_exec(u: &str) -> (r: String)
    ensures
        r@ == capture_hls(u@),
{
    match find_host_prefix_from(u, "v.redd.it/", 0) {
        Option::None => {
            proof {
                reveal_strlit("v.redd.it/");
            }
            String::new()
        },
        Option::Some((s, e)) => {
            proof {
                reveal_strlit("v.redd.it/");
            }
            let tlen = u.unicode_len();
            let le = line_end_from(u, e);
            if le != tlen {
                return String::new();
            }
            let mut j: usize = tlen;
            loop
                invariant
                    e <= tlen,
                    tlen == u@.len(),
                    find_host_prefix(u@, "v.redd.it/"@, 0) == Option::Some(
                        (s as int, e as int),
                    ),
                    line_end(u@, e as int) == tlen,
                    e <= j <= tlen,
                    last_hls(u@, e as int, tlen as int) == last_hls(u@, e as int, j as int),
                decreases j - e,
            {
                if j == e {
                    return String::new();
                }
                if starts_with_from(u, "/HLSPlaylist.m3u8", j) {
                    proof {
                        reveal_strlit("/HLSPlaylist.m3u8");
                        assert(hls_at(u@, j as int));
                        assert(last_hls(u@, e as int, j as int) == Option::Some(j as int));
                    }
                    let mut r = String::from_str("/hls/");
                    r.append(u.substring_char(e, j));
                    r.append("/");
                    r.append(u.substring_char(j + 1, tlen));
                    proof {
                        assert(r@ =~= capture_hls(u@));
                    }
                    return r;
                }
                proof {
                    reveal_strlit("/HLSPlaylist.m3u8");
                    assert(!hls_at(u@, j as int));
                }
                j -= 1;
            }
        },
    }
}

/// Canonicalizes a URL for the local proxy.
///
/// Empty input and the sentinels `self`, `default`, `nsfw` and
/// `spoiler` yield the empty string. Text that does not parse as a URL
/// with a domain passes through unchanged, as does any domain outside
/// the rule table. A proxied domain whose URL matches no known shape
/// yields the empty string, never the original host.
pub fn format_url(url: &str) -> (r: String)
    ensures
        r@ == spec_format_url(url@, url_domain_of(url@)),
        url@.len() == 0 || is_sentinel(url@) ==> r@.len() == 0,
{
    if url.unicode_len() == 0 || crate::strutil::str_eq(url, "self") || crate::strutil::str_eq(
        url,
        "default",
    ) || crate::strutil::str_eq(url, "nsfw") || crate::strutil::str_eq(url, "spoiler") {
        return String::new();
    }
    match url_domain(url) {
        Option::None => url.to_owned(),
        Option::Some(d) => {
            let ds = d.as_str();
            if crate::strutil::str_eq(ds, "www.reddit.com") {
                capture_tail_exec(url, "www.reddit.com/", "/")
            } else if crate::strutil::str_eq(ds, "old.reddit.com") {
                capture_tail_exec(url, "old.reddit.com/", "/")
            } else if crate::strutil::str_eq(ds, "np.reddit.com") {
                capture_tail_exec(url, "np.reddit.com/", "/")
            } else if crate::strutil::str_eq(ds, "reddit.com") {
                capture_tail_exec(url, "reddit.com/", "/")
            } else if crate::strutil::str_eq(ds, "v.redd.it") {
                let first = capture_dash_exec(url);
                if first.as_str().unicode_len() > 0 {
                    first
                } else {
                    capture_hls_exec(url)
                }
            } else if crate::strutil::str_eq(ds, "i.redd.it") {
                capture_tail_exec(url, "i.redd.it/", "/img/")
            } else if crate::strutil::str_eq(ds, "a.thumbs.redditmedia.com") {
                capture_tail_exec(url, "a.thumbs.redditmedia.com/", "/thumb/a/")
            } else if crate::strutil::str_eq(ds, "b.thumbs.redditmedia.com") {
                capture_tail_exec(url, "b.thumbs.redditmedia.com/", "/thumb/b/")
            } else if crate::strutil::str_eq(ds, "emoji.redditmedia.com") {
                capture_two_exec(url, "emoji.redditmedia.com/", "/emoji/")
            } else if crate::strutil::str_eq(ds, "preview.redd.it") {
                capture_tail_exec(url, "preview.redd.it/", "/preview/pre/")
            } else if crate::strutil::str_eq(ds, "external-preview.redd.it") {
                capture_tail_exec(url, "external-preview.redd.it/", "/preview/external-pre/")
            } else if crate::strutil::str_eq(ds, "styles.redditmedia.com") {
                capture_tail_exec(url, "styles.redditmedia.com/", "/style/")
            } else if crate::strutil::str_eq(ds, "www.redditstatic.com") {
                capture_tail_exec(url, "www.redditstatic.com/", "/static/")
            } else {
                url.to_owned()
            }
        },
    }
}

/// Value of the last query pair named `key`, if any.
pub open spec fn last_pair(q: Seq<(Seq<char>, Seq<char>)>, key: Seq<char>) -> Option<Seq<char>>
    decreases q.len(),
{
    if q.len() == 0 {
        None
    } else if q[q.len() - 1].0 == key {
        Some(q[q.len() - 1].1)
    } else {
        last_pair(q.drop_last(), key)
    }
}

/// Looks up a query parameter of a request path: the path is resolved
/// against the local origin and the last pair with the given name wins.
/// Nothing when the path does not parse or the name is absent.
pub fn param(path: &str, value: &str) -> (r: Option<String>)
    ensures
        match url_query_pairs_of("https://libredd.it/"@ + path@) {
            Option::None => r is None,
            Option::Some(q) => match r {
                Option::Some(v) => last_pair(q, value@) == Option::Some(v@),
                Option::None => last_pair(q, value@) is None,
            },
        },
{
    let mut full = String::from_str("https://libredd.it/");
    full.append(path);
    proof {
        assert(full@ == "https://libredd.it/"@ + path@);
    }
    match url_query_pairs(full.as_str()) {
        Option::None => None,
        Option::Some(pairs) => {
            proof {
                assert(pairs.deep_view().len() == pairs@.len());
                assert(pairs.deep_view().take(pairs@.len() as int) =~= pairs.deep_view());
            }
            let mut i: usize = pairs.len();
            loop
                invariant
                    url_query_pairs_of("https://libredd.it/"@ + path@) == Option::Some(
                        pairs.deep_view(),
                    ),
                    i <= pairs.len(),
                    pairs.deep_view().len() == pairs@.len(),
                    last_pair(pairs.deep_view(), value@) == last_pair(
                        pairs.deep_view().take(i as int),
                        value@,
                    ),
                decreases i,
            {
                if i == 0 {
                    proof {
                        assert(pairs.deep_view().take(0) =~= Seq::<
                            (Seq<char>, Seq<char>),
                        >::empty());
                    }
                    return None;
                }
                i -= 1;
                proof {
                    assert(pairs.deep_view()[i as int] == (pairs@[i as int].0@, pairs@[
                        i as int
                    ].1@));
                    assert(pairs.deep_view().take(i + 1).drop_last() =~= pairs.deep_view().take(
                        i as int,
                    ));
                    assert(pairs.deep_view().take(i + 1).last() == pairs.deep_view()[i as int]);
                }
                if crate::strutil::str_eq(pairs[i].0.as_str(), value) {
                    proof {
                        assert(last_pair(pairs.deep_view().take(i + 1), value@) == Option::Some(
                            pairs.deep_view()[i as int].1,
                        ));
                    }
                    return Some(pairs[i].1.clone());
                }
            }
        },
    }
}

} // verus!

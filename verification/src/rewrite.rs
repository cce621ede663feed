//! Body rewriting: anchors pointing at the upstream site become
//! root-relative, embedded static-asset and media-preview URLs are
//! canonicalized, and the upstream's escaped backslash sequences are
//! stripped.

use vstd::prelude::*;

use crate::strutil::{find_at, lemma_find_at_some, line_end, replace_all, starts_with_at,
    starts_with_from, line_end_from};
use crate::urls::{spec_format_url, url_domain_of};

verus! {

/// End of an `https://` or `http://` scheme occurring at `i`.
pub open spec fn scheme_end(t: Seq<char>, i: int) -> Option<int> {
    if starts_with_at(t, "https://"@, i) {
        Some(i + 8)
    } else if starts_with_at(t, "http://"@, i) {
        Some(i + 7)
    } else {
        None
    }
}

/// End of an upstream domain with its trailing slash occurring at `c`.
pub open spec fn domain_slash_end(t: Seq<char>, c: int) -> Option<int> {
    if starts_with_at(t, "reddit.com/"@, c) {
        Some(c + 11)
    } else if starts_with_at(t, "redd.it/"@, c) {
        Some(c + 8)
    } else {
        None
    }
}

/// End of an optional site prefix followed by an upstream domain and
/// slash, starting at `b`: a named prefix is taken only when a domain
/// follows it, otherwise the domain must start at `b` itself.
pub open spec fn prefix_domain_end(t: Seq<char>, b: int) -> Option<int> {
    if starts_with_at(t, "www."@, b) && domain_slash_end(t, b + 4) is Some {
        domain_slash_end(t, b + 4)
    } else if starts_with_at(t, "old."@, b) && domain_slash_end(t, b + 4) is Some {
        domain_slash_end(t, b + 4)
    } else if starts_with_at(t, "np."@, b) && domain_slash_end(t, b + 3) is Some {
        domain_slash_end(t, b + 3)
    } else if starts_with_at(t, "amp."@, b) && domain_slash_end(t, b + 4) is Some {
        domain_slash_end(t, b + 4)
    } else if starts_with_at(t, "new."@, b) && domain_slash_end(t, b + 4) is Some {
        domain_slash_end(t, b + 4)
    } else {
        domain_slash_end(t, b)
    }
}

/// End of an anchor opening that points at the upstream site: the text
/// `href="`, an optional scheme, `://` with the scheme or bare, an
/// optional site prefix, an upstream domain, and a slash.
pub open spec fn reddit_link_end_at(t: Seq<char>, i: int) -> Option<int> {
    if starts_with_at(t, "href=\""@, i) {
        if starts_with_at(t, "https://"@, i + 6) {
            prefix_domain_end(t, i + 14)
        } else if starts_with_at(t, "http://"@, i + 6) {
            prefix_domain_end(t, i + 13)
        } else if starts_with_at(t, "://"@, i + 6) {
            prefix_domain_end(t, i + 9)
        } else {
            None
        }
    } else {
        None
    }
}

/// End of a static-asset URL occurring at `i`: a scheme, an optional
/// `www`, one arbitrary character, the static-asset domain and slash;
/// the match extends to the end of the line.
pub open spec fn emoji_end_at(t: Seq<char>, i: int) -> Option<int> {
    match scheme_end(t, i) {
        Option::Some(a) => {
            if starts_with_at(t, "www"@, a) && a + 3 < t.len() && t[a + 3] != '\n'
                && starts_with_at(t, "redditstatic.com/"@, a + 4) {
                Some(line_end(t, a + 21))
            } else if a < t.len() && t[a] != '\n' && starts_with_at(t, "redditstatic.com/"@, a + 1) {
                Some(line_end(t, a + 18))
            } else {
                None
            }
        },
        Option::None => None,
    }
}

/// Last index in `[e, j)` whose character is not `?`.
pub open spec fn last_non_query(t: Seq<char>, e: int, j: int) -> Option<int>
    decreases j - e,
{
    if j <= e {
        None
    } else if t[j - 1] != '?' {
        Some(j - 1)
    } else {
        last_non_query(t, e, j - 1)
    }
}

/// End of a media-preview URL occurring at `i`: a scheme, one of the
/// preview domains, then the rest of the line plus its line break; at
/// the very end of the text the match instead stops after the last
/// non-`?` character.
pub open spec fn preview_end_at(t: Seq<char>, i: int) -> Option<int> {
    match scheme_end(t, i) {
        Option::Some(a) => {
            if starts_with_at(t, "external-preview.redd.it"@, a) {
                preview_tail_end(t, a + 24)
            } else if starts_with_at(t, "preview.redd.it"@, a) {
                preview_tail_end(t, a + 15)
            } else {
                None
            }
        },
        Option::None => None,
    }
}

/// End of the tail of a media-preview match beginning at `e`.
pub open spec fn preview_tail_end(t: Seq<char>, e: int) -> Option<int> {
    let le = line_end(t, e);
    if le < t.len() {
        Some(le + 1)
    } else {
        match last_non_query(t, e, t.len() as int) {
            Option::Some(m) => Some(m + 1),
            Option::None => None,
        }
    }
}

/// `t` from position `i` on, with every pattern match replaced by
/// `rep`: matches are found left to right and do not overlap.
pub open spec fn replace_matches_from(
    t: Seq<char>,
    m: spec_fn(Seq<char>, int) -> Option<int>,
    rep: Seq<char>,
    i: int,
) -> Seq<char>
    decreases t.len() - i,
{
    if 0 <= i < t.len() {
        let o = m(t, i);
        if o is Some && i < o->Some_0 <= t.len() {
            rep + replace_matches_from(t, m, rep, o->Some_0)
        } else {
            seq![t[i]] + replace_matches_from(t, m, rep, i + 1)
        }
    } else {
        Seq::<char>::empty()
    }
}

/// First pattern match at or after `i`: its span.
pub open spec fn first_match_of(
    t: Seq<char>,
    m: spec_fn(Seq<char>, int) -> Option<int>,
    i: int,
) -> Option<(int, int)>
    decreases t.len() - i,
{
    if 0 <= i < t.len() {
        let o = m(t, i);
        if o is Some && i < o->Some_0 <= t.len() {
            Some((i, o->Some_0))
        } else {
            first_match_of(t, m, i + 1)
        }
    } else {
        None
    }
}

/// The upstream's escaped-backslash sequences, stripped: `%5C` is
/// removed and `\_` loses its backslash.
pub open spec fn strip_escapes(s: Seq<char>) -> Seq<char> {
    replace_all(replace_all(s, "%5C"@, ""@), "\\_"@, "_"@)
}

/// End of the span a rewritten anchor affects: its attribute value and
/// link text, up to the anchor's closing tag (plain or HTML-escaped),
/// or the end of the text.
pub open spec fn anchor_span_end(t: Seq<char>, e: int) -> int {
    match (find_at(t, "</a>"@, e), find_at(t, "&lt;/a&gt;"@, e)) {
        (Option::Some(x), Option::Some(y)) => if x <= y {
            x
        } else {
            y
        },
        (Option::Some(x), Option::None) => x,
        (Option::None, Option::Some(y)) => y,
        (Option::None, Option::None) => t.len() as int,
    }
}

/// An anchor span ends at or after its start, within the text.
proof fn lemma_anchor_span_end(t: Seq<char>, e: int)
    requires
        0 <= e <= t.len(),
    ensures
        e <= anchor_span_end(t, e) <= t.len(),
{
    reveal_strlit("</a>");
    reveal_strlit("&lt;/a&gt;");
    if find_at(t, "</a>"@, e) is Some {
        lemma_find_at_some(t, "</a>"@, e);
    }
    if find_at(t, "&lt;/a&gt;"@, e) is Some {
        lemma_find_at_some(t, "&lt;/a&gt;"@, e);
    }
}

/// `t` from position `i` on, with every upstream anchor rewritten to a
/// root-relative one; within each rewritten anchor's span (its
/// attribute value and link text) the upstream's escaped-backslash
/// sequences are stripped, and every character outside such spans is
/// kept unchanged.
pub open spec fn rewrite_anchors_from(t: Seq<char>, i: int) -> Seq<char>
    decreases t.len() - i,
    via rewrite_anchors_decreases
{
    if 0 <= i < t.len() {
        let o = reddit_link_end_at(t, i);
        if o is Some && i < o->Some_0 <= t.len() {
            let se = anchor_span_end(t, o->Some_0);
            "href=\"/"@ + strip_escapes(t.subrange(o->Some_0, se)) + rewrite_anchors_from(t, se)
        } else {
            seq![t[i]] + rewrite_anchors_from(t, i + 1)
        }
    } else {
        Seq::<char>::empty()
    }
}

#[via_fn]
proof fn rewrite_anchors_decreases(t: Seq<char>, i: int) {
    if 0 <= i < t.len() {
        let o = reddit_link_end_at(t, i);
        if o is Some && i < o->Some_0 <= t.len() {
            lemma_anchor_span_end(t, o->Some_0);
        }
    }
}

/// The static-asset pattern as a value.
pub open spec fn emoji_matcher() -> spec_fn(Seq<char>, int) -> Option<int> {
    |t: Seq<char>, i: int| emoji_end_at(t, i)
}

/// The media-preview pattern as a value.
pub open spec fn preview_matcher() -> spec_fn(Seq<char>, int) -> Option<int> {
    |t: Seq<char>, i: int| preview_end_at(t, i)
}

/// The rewritten form of a body: upstream anchors become root-relative
/// with escaped-backslash sequences stripped inside their spans only,
/// every static-asset URL is replaced by the canonical form of the
/// first one, and every media-preview URL is replaced by the canonical
/// form of the first. Text outside matched spans is kept verbatim.
pub open spec fn spec_rewrite_urls(t: Seq<char>) -> Seq<char> {
    let t1 = rewrite_anchors_from(t, 0);
    let erep = match first_match_of(t1, emoji_matcher(), 0) {
        Option::Some(se) => spec_format_url(
            t1.subrange(se.0, se.1),
            url_domain_of(t1.subrange(se.0, se.1)),
        ),
        Option::None => Seq::<char>::empty(),
    };
    let t2 = replace_matches_from(t1, emoji_matcher(), erep, 0);
    match first_match_of(t2, preview_matcher(), 0) {
        Option::Some(se) => replace_matches_from(
            t2,
            preview_matcher(),
            spec_format_url(t2.subrange(se.0, se.1), url_domain_of(t2.subrange(se.0, se.1))),
            0,
        ),
        Option::None => t2,
    }
}

/// Upstream-anchor match at `i`, executable.
fn reddit_link_match(t: &str, i: usize) -> (r: Option<usize>)
    requires
        i < t@.len(),
    ensures
        match r {
            Option::Some(e) => reddit_link_end_at(t@, i as int) == Option::Some(e as int) && i < e
                <= t@.len(),
            Option::None => reddit_link_end_at(t@, i as int) is None,
        },
{
    proof {
        reveal_strlit("href=\"");
        reveal_strlit("https://");
        reveal_strlit("http://");
        reveal_strlit("://");
    }
    let tlen = t.unicode_len();
    if !starts_with_from(t, "href=\"", i) {
        return None;
    }
    proof {
        assert(i + 6 <= tlen);
    }
    let b: usize = if starts_with_from(t, "https://", i + 6) {
        i + 14
    } else if starts_with_from(t, "http://", i + 6) {
        i + 13
    } else if starts_with_from(t, "://", i + 6) {
        i + 9
    } else {
        return None;
    };
    prefix_domain_match(t, b)
}

/// Optional site prefix, upstream domain and slash at `b`, executable.
fn prefix_domain_match(t: &str, b: usize) -> (r: Option<usize>)
    requires
        b <= t@.len(),
    ensures
        match r {
            Option::Some(e) => prefix_domain_end(t@, b as int) == Option::Some(e as int) && b < e
                <= t@.len(),
            Option::None => prefix_domain_end(t@, b as int) is None,
        },
{
    proof {
        reveal_strlit("www.");
        reveal_strlit("old.");
        reveal_strlit("np.");
        reveal_strlit("amp.");
        reveal_strlit("new.");
    }
    let tlen = t.unicode_len();
    if starts_with_from(t, "www.", b) {
        match domain_slash_match(t, b + 4) {
            Option::Some(e) => {
                return Some(e);
            },
            Option::None => {},
        }
    }
    if starts_with_from(t, "old.", b) {
        match domain_slash_match(t, b + 4) {
            Option::Some(e) => {
                return Some(e);
            },
            Option::None => {},
        }
    }
    if starts_with_from(t, "np.", b) {
        match domain_slash_match(t, b + 3) {
            Option::Some(e) => {
                return Some(e);
            },
            Option::None => {},
        }
    }
    if starts_with_from(t, "amp.", b) {
        match domain_slash_match(t, b + 4) {
            Option::Some(e) => {
                return Some(e);
            },
            Option::None => {},
        }
    }
    if starts_with_from(t, "new.", b) {
        match domain_slash_match(t, b + 4) {
            Option::Some(e) => {
                return Some(e);
            },
            Option::None => {},
        }
    }
    domain_slash_match(t, b)
}

/// Upstream domain and slash at `c`, executable.
fn domain_slash_match(t: &str, c: usize) -> (r: Option<usize>)
    requires
        c <= t@.len(),
    ensures
        match r {
            Option::Some(e) => domain_slash_end(t@, c as int) == Option::Some(e as int) && c < e
                <= t@.len(),
            Option::None => domain_slash_end(t@, c as int) is None,
        },
{
    proof {
        reveal_strlit("reddit.com/");
        reveal_strlit("redd.it/");
    }
    let tlen = t.unicode_len();
    if starts_with_from(t, "reddit.com/", c) {
        proof {
            assert(c + 11 <= tlen);
        }
        Some(c + 11)
    } else if starts_with_from(t, "redd.it/", c) {
        proof {
            assert(c + 8 <= tlen);
        }
        Some(c + 8)
    } else {
        None
    }
}

/// Static-asset match at `i`, executable.
fn emoji_match(t: &str, i: usize) -> (r: Option<usize>)
    requires
        i < t@.len(),
    ensures
        match r {
            Option::Some(e) => emoji_end_at(t@, i as int) == Option::Some(e as int) && i < e
                <= t@.len(),
            Option::None => emoji_end_at(t@, i as int) is None,
        },
{
    proof {
        reveal_strlit("https://");
        reveal_strlit("http://");
        reveal_strlit("www");
        reveal_strlit("redditstatic.com/");
    }
    let tlen = t.unicode_len();
    let a: usize = if starts_with_from(t, "https://", i) {
        i + 8
    } else if starts_with_from(t, "http://", i) {
        i + 7
    } else {
        return None;
    };
    if starts_with_from(t, "www", a) && a + 3 < tlen && t.get_char(a + 3) != '\n'
        && starts_with_from(t, "redditstatic.com/", a + 4) {
        Some(line_end_from(t, a + 21))
    } else if a < tlen && t.get_char(a) != '\n' && starts_with_from(t, "redditstatic.com/", a + 1) {
        Some(line_end_from(t, a + 18))
    } else {
        None
    }
}

/// Media-preview match at `i`, executable.
fn preview_match(t: &str, i: usize) -> (r: Option<usize>)
    requires
        i < t@.len(),
    ensures
        match r {
            Option::Some(e) => preview_end_at(t@, i as int) == Option::Some(e as int) && i < e
                <= t@.len(),
            Option::None => preview_end_at(t@, i as int) is None,
        },
{
    proof {
        reveal_strlit("https://");
        reveal_strlit("http://");
        reveal_strlit("external-preview.redd.it");
        reveal_strlit("preview.redd.it");
    }
    let tlen = t.unicode_len();
    let a: usize = if starts_with_from(t, "https://", i) {
        proof {
            assert(i + 8 <= tlen);
        }
        i + 8
    } else if starts_with_from(t, "http://", i) {
        proof {
            assert(i + 7 <= tlen);
        }
        i + 7
    } else {
        return None;
    };
    if starts_with_from(t, "external-preview.redd.it", a) {
        proof {
            assert(a + 24 <= tlen);
        }
        preview_tail_match(t, a + 24)
    } else if starts_with_from(t, "preview.redd.it", a) {
        proof {
            assert(a + 15 <= tlen);
        }
        preview_tail_match(t, a + 15)
    } else {
        None
    }
}

/// Tail of a media-preview match beginning at `e`, executable.
fn preview_tail_match(t: &str, e: usize) -> (r: Option<usize>)
    requires
        e <= t@.len(),
    ensures
        match r {
            Option::Some(x) => preview_tail_end(t@, e as int) == Option::Some(x as int) && e < x
                <= t@.len(),
            Option::None => preview_tail_end(t@, e as int) is None,
        },
{
    let tlen = t.unicode_len();
    let le = line_end_from(t, e);
    if le < tlen {
        return Some(le + 1);
    }
    let mut j: usize = tlen;
    loop
        invariant
            tlen == t@.len(),
            line_end(t@, e as int) == tlen,
            e <= j <= tlen,
            last_non_query(t@, e as int, tlen as int) == last_non_query(t@, e as int, j as int),
        decreases j - e,
    {
        if j == e {
            return None;
        }
        if t.get_char(j - 1) != '?' {
            return Some(j);
        }
        j -= 1;
    }
}

/// Rewrites every upstream-anchor match to a root-relative one,
/// stripping escaped-backslash sequences within each rewritten
/// anchor's span only.
fn rewrite_anchors(t: &str) -> (r: String)
    ensures
        r@ == rewrite_anchors_from(t@, 0),
{
    let tlen = t.unicode_len();
    let mut out = String::new();
    let mut i: usize = 0;
    while i < tlen
        invariant
            tlen == t@.len(),
            i <= tlen,
            out@ + rewrite_anchors_from(t@, i as int) == rewrite_anchors_from(t@, 0),
        decreases tlen - i,
    {
        match reddit_link_match(t, i) {
            Option::Some(e) => {
                out.append("href=\"/");
                let se = anchor_span_end_from(t, e);
                let seg = t.substring_char(e, se);
                proof {
                    reveal_strlit("%5C");
                    reveal_strlit("\\_");
                }
                let s1 = crate::strutil::replace_all_str(seg, "%5C", "");
                let s2 = crate::strutil::replace_all_str(s1.as_str(), "\\_", "_");
                out.append(s2.as_str());
                proof {
                    assert(s2@ == strip_escapes(t@.subrange(e as int, se as int)));
                    assert(out@ + rewrite_anchors_from(t@, se as int) =~= rewrite_anchors_from(
                        t@,
                        0,
                    ));
                }
                i = se;
            },
            Option::None => {
                out.append(t.substring_char(i, i + 1));
                proof {
                    assert(t@.subrange(i as int, i + 1) =~= seq![t@[i as int]]);
                    assert(out@ + rewrite_anchors_from(t@, i + 1) =~= rewrite_anchors_from(t@, 0));
                }
                i = i + 1;
            },
        }
    }
    proof {
        assert(out@ =~= rewrite_anchors_from(t@, 0));
    }
    out
}

/// End of the span a rewritten anchor affects, executable.
fn anchor_span_end_from(t: &str, e: usize) -> (r: usize)
    requires
        e <= t@.len(),
    ensures
        r as int == anchor_span_end(t@, e as int),
        e <= r <= t@.len(),
{
    proof {
        reveal_strlit("</a>");
        reveal_strlit("&lt;/a&gt;");
    }
    let a = crate::strutil::find_from(t, "</a>", e);
    let b = crate::strutil::find_from(t, "&lt;/a&gt;", e);
    proof {
        if find_at(t@, "</a>"@, e as int) is Some {
            lemma_find_at_some(t@, "</a>"@, e as int);
        }
        if find_at(t@, "&lt;/a&gt;"@, e as int) is Some {
            lemma_find_at_some(t@, "&lt;/a&gt;"@, e as int);
        }
    }
    match (a, b) {
        (Option::Some(x), Option::Some(y)) => if x <= y {
            x
        } else {
            y
        },
        (Option::Some(x), Option::None) => x,
        (Option::None, Option::Some(y)) => y,
        (Option::None, Option::None) => t.unicode_len(),
    }
}

/// Replaces every static-asset match with `rep`.
fn replace_emoji_matches(t: &str, rep: &str) -> (r: String)
    ensures
        r@ == replace_matches_from(t@, emoji_matcher(), rep@, 0),
{
    let tlen = t.unicode_len();
    let mut out = String::new();
    let mut i: usize = 0;
    while i < tlen
        invariant
            tlen == t@.len(),
            i <= tlen,
            out@ + replace_matches_from(t@, emoji_matcher(), rep@, i as int)
                == replace_matches_from(t@, emoji_matcher(), rep@, 0),
        decreases tlen - i,
    {
        proof {
            assert(emoji_matcher()(t@, i as int) == emoji_end_at(t@, i as int));
        }
        match emoji_match(t, i) {
            Option::Some(e) => {
                out.append(rep);
                proof {
                    assert(out@ + replace_matches_from(t@, emoji_matcher(), rep@, e as int)
                        =~= replace_matches_from(t@, emoji_matcher(), rep@, 0));
                }
                i = e;
            },
            Option::None => {
                out.append(t.substring_char(i, i + 1));
                proof {
                    assert(t@.subrange(i as int, i + 1) =~= seq![t@[i as int]]);
                    assert(out@ + replace_matches_from(t@, emoji_matcher(), rep@, i + 1)
                        =~= replace_matches_from(t@, emoji_matcher(), rep@, 0));
                }
                i = i + 1;
            },
        }
    }
    proof {
        assert(out@ =~= replace_matches_from(t@, emoji_matcher(), rep@, 0));
    }
    out
}

/// Replaces every media-preview match with `rep`.
fn replace_preview_matches(t: &str, rep: &str) -> (r: String)
    ensures
        r@ == replace_matches_from(t@, preview_matcher(), rep@, 0),
{
    let tlen = t.unicode_len();
    let mut out = String::new();
    let mut i: usize = 0;
    while i < tlen
        invariant
            tlen == t@.len(),
            i <= tlen,
            out@ + replace_matches_from(t@, preview_matcher(), rep@, i as int)
                == replace_matches_from(t@, preview_matcher(), rep@, 0),
        decreases tlen - i,
    {
        proof {
            assert(preview_matcher()(t@, i as int) == preview_end_at(t@, i as int));
        }
        match preview_match(t, i) {
            Option::Some(e) => {
                out.append(rep);
                proof {
                    assert(out@ + replace_matches_from(t@, preview_matcher(), rep@, e as int)
                        =~= replace_matches_from(t@, preview_matcher(), rep@, 0));
                }
                i = e;
            },
            Option::None => {
                out.append(t.substring_char(i, i + 1));
                proof {
                    assert(t@.subrange(i as int, i + 1) =~= seq![t@[i as int]]);
                    assert(out@ + replace_matches_from(t@, preview_matcher(), rep@, i + 1)
                        =~= replace_matches_from(t@, preview_matcher(), rep@, 0));
                }
                i = i + 1;
            },
        }
    }
    proof {
        assert(out@ =~= replace_matches_from(t@, preview_matcher(), rep@, 0));
    }
    out
}

/// First static-asset match in `t`.
fn find_first_emoji(t: &str) -> (r: Option<(usize, usize)>)
    ensures
        match r {
            Option::Some(p) => first_match_of(t@, emoji_matcher(), 0) == Option::Some(
                (p.0 as int, p.1 as int),
            ) && p.0 < p.1 <= t@.len(),
            Option::None => first_match_of(t@, emoji_matcher(), 0) is None,
        },
{
    let tlen = t.unicode_len();
    let mut i: usize = 0;
    while i < tlen
        invariant
            tlen == t@.len(),
            i <= tlen,
            first_match_of(t@, emoji_matcher(), 0) == first_match_of(t@, emoji_matcher(), i as int),
        decreases tlen - i,
    {
        proof {
            assert(emoji_matcher()(t@, i as int) == emoji_end_at(t@, i as int));
        }
        match emoji_match(t, i) {
            Option::Some(e) => {
                return Some((i, e));
            },
            Option::None => {},
        }
        i = i + 1;
    }
    None
}

/// First media-preview match in `t`.
fn find_first_preview(t: &str) -> (r: Option<(usize, usize)>)
    ensures
        match r {
            Option::Some(p) => first_match_of(t@, preview_matcher(), 0) == Option::Some(
                (p.0 as int, p.1 as int),
            ) && p.0 < p.1 <= t@.len(),
            Option::None => first_match_of(t@, preview_matcher(), 0) is None,
        },
{
    let tlen = t.unicode_len();
    let mut i: usize = 0;
    while i < tlen
        invariant
            tlen == t@.len(),
            i <= tlen,
            first_match_of(t@, preview_matcher(), 0) == first_match_of(
                t@,
                preview_matcher(),
                i as int,
            ),
        decreases tlen - i,
    {
        proof {
            assert(preview_matcher()(t@, i as int) == preview_end_at(t@, i as int));
        }
        match preview_match(t, i) {
            Option::Some(e) => {
                return Some((i, e));
            },
            Option::None => {},
        }
        i = i + 1;
    }
    None
}

/// Rewrites upstream links in a body of HTML text.
///
/// Anchors pointing at the upstream site (with or without a scheme or a
/// site prefix) become root-relative, and the upstream's escaped
/// backslash sequences (`%5C` and `\_`) are stripped within each
/// rewritten anchor's span only, never inside unrelated text. Every
/// embedded static-asset URL is replaced by the canonical form of the
/// first one found, and every media-preview URL by the canonical form
/// of the first one found. Text outside matched spans is preserved.
pub fn rewrite_urls(input_text: &str) -> (r: String)
    ensures
        r@ == spec_rewrite_urls(input_text@),
{
    let t1 = rewrite_anchors(input_text);
    let erep = match find_first_emoji(t1.as_str()) {
        Option::Some((s, e)) => {
            let m = crate::strutil::substr(t1.as_str(), s, e);
            crate::urls::format_url(m.as_str())
        },
        Option::None => String::new(),
    };
    let t2 = replace_emoji_matches(t1.as_str(), erep.as_str());
    match find_first_preview(t2.as_str()) {
        Option::Some((s, e)) => {
            let m = crate::strutil::substr(t2.as_str(), s, e);
            let prep = crate::urls::format_url(m.as_str());
            replace_preview_matches(t2.as_str(), prep.as_str())
        },
        Option::None => t2,
    }
}

} // verus!

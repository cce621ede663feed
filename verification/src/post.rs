//! Posts and comments: the full normalized records, a page parser over
//! a raw listing response, and blocklist filtering.

use vstd::prelude::*;

use crate::entities::{
    Author, Awards, Flags, Flair, FlairPart, Poll, flair_parts_of, flair_parts_match, awards_match,
    poll_ok, poll_matches, unix_secs, trunc_percent, micros_to_unix_secs, micros_to_percent,
};
use crate::json::{
    JsonValue, spec_get, jstr, jstr_or_empty, jbool_or_false, ji64_or_zero, ju64_or_zero, jmicros,
    jarr, jsub, member, str_or_empty, bool_or_false, i64_or_zero, u64_or_zero, arr_opt, str_opt,
};
use crate::media::{Media, GalleryMedia, media_matches, gallery_case, gallery_ok, spec_post_type};
use crate::numfmt::{abbreviated, int_string};
use crate::rewrite::spec_rewrite_urls;
use crate::settings::Preferences;
use crate::timefmt::{spec_rel_time, spec_abs_time};
use crate::urls::canon_url;

verus! {

/// Host of the read-only mirror of removed posts, used when no other
/// is configured.
pub const DEFAULT_REMOVED_MIRROR: &'static str = "undelete.pullpush.io";

/// A normalized post.
pub struct Post {
    pub id: String,
    pub title: String,
    pub community: String,
    pub body: String,
    pub author: Author,
    pub permalink: String,
    pub poll: Option<Poll>,
    pub score: (String, String),
    pub upvote_ratio: i64,
    pub post_type: String,
    pub flair: Flair,
    pub flags: Flags,
    pub thumbnail: Media,
    pub media: Media,
    pub domain: String,
    pub rel_time: String,
    pub created: String,
    pub num_duplicates: u64,
    pub comments: (String, String),
    pub gallery: Vec<GalleryMedia>,
    pub awards: Awards,
    pub nsfw: bool,
    pub ws_url: String,
}

/// A normalized comment, with its reply tree.
pub struct Comment {
    pub id: String,
    pub kind: String,
    pub parent_id: String,
    pub parent_kind: String,
    pub post_link: String,
    pub post_author: String,
    pub body: String,
    pub author: Author,
    pub score: (String, String),
    pub rel_time: String,
    pub created: String,
    pub edited: (String, String),
    pub replies: Vec<Comment>,
    pub highlighted: bool,
    pub awards: Awards,
    pub collapsed: bool,
    pub is_filtered: bool,
    pub more_count: i64,
    pub prefs: Preferences,
}

/// The string member `k` of a node's data object, or empty.
pub open spec fn spec_val(j: JsonValue, k: Seq<char>) -> Seq<char> {
    jstr_or_empty(jsub(spec_get(j, "data"@), k))
}

/// The data object of a post node, or a null node when absent.
pub open spec fn data_or_null(post: JsonValue) -> JsonValue {
    match spec_get(post, "data"@) {
        Option::Some(d) => d,
        Option::None => JsonValue::Null,
    }
}

/// The creation second of a post: its timestamp member rounded to
/// whole seconds, zero when it is not a number.
pub open spec fn created_secs(data: JsonValue) -> int {
    match jmicros(spec_get(data, "created_utc"@)) {
        Option::Some(m) => unix_secs(m),
        Option::None => 0,
    }
}

/// The upvote ratio of a post as a truncated percentage; a missing
/// ratio reads as one hundred percent.
pub open spec fn ratio_percent(data: JsonValue) -> int {
    match jmicros(spec_get(data, "upvote_ratio"@)) {
        Option::Some(m) => trunc_percent(m),
        Option::None => 100,
    }
}

/// The link-flair foreground color: black on a dark flair, else white.
pub open spec fn link_flair_fg(data: JsonValue) -> Seq<char> {
    if jstr_or_empty(spec_get(data, "link_flair_text_color"@)) == "dark"@ {
        "black"@
    } else {
        "white"@
    }
}

/// The author flair parts a post's data determines.
pub open spec fn author_flair_parts(data: JsonValue) -> Seq<(Seq<char>, Seq<char>)> {
    flair_parts_of(
        jstr_or_empty(spec_get(data, "author_flair_type"@)),
        jarr(spec_get(data, "author_flair_richtext"@)),
        jstr(spec_get(data, "author_flair_text"@)),
    )
}

/// The link flair parts a post's data determines.
pub open spec fn link_flair_parts(data: JsonValue) -> Seq<(Seq<char>, Seq<char>)> {
    flair_parts_of(
        jstr_or_empty(spec_get(data, "link_flair_type"@)),
        jarr(spec_get(data, "link_flair_richtext"@)),
        jstr(spec_get(data, "link_flair_text"@)),
    )
}

/// Every field of a post record that listing and single-post parsing
/// share, determined by the post node and a clock reading.
pub open spec fn post_core_matches(p: Post, post: JsonValue, now: int) -> bool {
    let data = data_or_null(post);
    &&& p.id@ == spec_val(post, "id"@)
    &&& p.title@ == spec_val(post, "title"@)
    &&& p.community@ == spec_val(post, "subreddit"@)
    &&& p.author.name@ == spec_val(post, "author"@)
    &&& flair_parts_match(p.author.flair.flair_parts@, author_flair_parts(data))
    &&& p.author.flair.text@ == spec_val(post, "link_flair_text"@)
    &&& p.author.flair.background_color@ == spec_val(post, "author_flair_background_color"@)
    &&& p.author.flair.foreground_color@ == spec_val(post, "author_flair_text_color"@)
    &&& p.author.distinguished@ == spec_val(post, "distinguished"@)
    &&& p.permalink@ == spec_val(post, "permalink"@)
    &&& (p.poll is Some) == poll_ok(spec_get(data, "poll_data"@))
    &&& (match p.poll {
        Option::Some(pl) => poll_matches(pl, spec_get(data, "poll_data"@)->Some_0, now),
        Option::None => true,
    })
    &&& p.upvote_ratio == ratio_percent(data)
    &&& p.post_type@ == spec_post_type(data)
    &&& flair_parts_match(p.flair.flair_parts@, link_flair_parts(data))
    &&& p.flair.text@ == spec_val(post, "link_flair_text"@)
    &&& p.flair.background_color@ == spec_val(post, "link_flair_background_color"@)
    &&& p.flair.foreground_color@ == link_flair_fg(data)
    &&& p.flags.nsfw == jbool_or_false(spec_get(data, "over_18"@))
    &&& p.flags.stickied == (jbool_or_false(spec_get(data, "stickied"@)) || jbool_or_false(
        spec_get(data, "pinned"@),
    ))
    &&& p.thumbnail.url@ == canon_url(spec_val(post, "thumbnail"@))
    &&& p.thumbnail.alt_url@.len() == 0
    &&& p.thumbnail.width == ji64_or_zero(spec_get(data, "thumbnail_width"@))
    &&& p.thumbnail.height == ji64_or_zero(spec_get(data, "thumbnail_height"@))
    &&& p.thumbnail.poster@.len() == 0
    &&& media_matches(p.media, data)
    &&& p.domain@ == spec_val(post, "domain"@)
    &&& p.rel_time@ == spec_rel_time(created_secs(data), now)
    &&& p.created@ == spec_abs_time(created_secs(data))
    &&& p.num_duplicates == ju64_or_zero(spec_get(data, "num_duplicates"@))
    &&& p.comments.0@ == abbreviated(ji64_or_zero(spec_get(data, "num_comments"@)) as int)
    &&& p.comments.1@ == int_string(ji64_or_zero(spec_get(data, "num_comments"@)) as int)
    &&& (gallery_case(data) ==> gallery_ok(p.gallery@, data))
    &&& (!gallery_case(data) ==> p.gallery@.len() == 0)
    &&& awards_match(p.awards.0@, spec_get(data, "all_awardings"@))
    &&& p.nsfw == jbool_or_false(spec_get(data, "over_18"@))
    &&& p.ws_url@ == spec_val(post, "websocket_url"@)
}

/// The score pair of a post: a bullet and `Hidden` when the upstream
/// hides the score, the formatted count otherwise.
pub open spec fn score_matches(p: Post, data: JsonValue) -> bool {
    if jbool_or_false(spec_get(data, "hide_score"@)) {
        p.score.0@ == "\u{2022}"@ && p.score.1@ == "Hidden"@
    } else {
        p.score.0@ == abbreviated(ji64_or_zero(spec_get(data, "score"@)) as int) && p.score.1@
            == int_string(ji64_or_zero(spec_get(data, "score"@)) as int)
    }
}

/// The body of a listing entry: the rewritten self text, falling back
/// to the rewritten comment body when that rewrites to nothing.
pub open spec fn listing_body(post: JsonValue) -> Seq<char> {
    let b = spec_rewrite_urls(spec_val(post, "selftext_html"@));
    if b.len() == 0 {
        spec_rewrite_urls(spec_val(post, "body_html"@))
    } else {
        b
    }
}

/// The fixed notice shown in place of a moderator-removed body,
/// linking to a read-only mirror of the removed post.
pub open spec fn removed_notice(mirror: Seq<char>, permalink: Seq<char>) -> Seq<char> {
    "<div class=\"md\"><p>[removed] \u{2014} <a href=\"https://"@ + mirror + permalink
        + "\">view removed post</a></p></div>"@
}

/// The body of a single post: the removal notice when a moderator
/// removed it, the rewritten self text otherwise.
pub open spec fn single_body(post: JsonValue, mirror: Seq<char>) -> Seq<char> {
    if spec_val(post, "removed_by_category"@) == "moderator"@ {
        removed_notice(mirror, spec_val(post, "permalink"@))
    } else {
        spec_rewrite_urls(spec_val(post, "selftext_html"@))
    }
}

/// The string member `k` of a node's data object, or empty.
pub fn val(j: &JsonValue, k: &str) -> (r: String)
    ensures
        r@ == spec_val(*j, k@),
{
    str_or_empty(member(member(Some(j), "data"), k))
}

/// Builds the shared fields of a post record from its node, leaving
/// score and body to the caller.
#[verifier::rlimit(100)]
fn parse_post_core(post: &JsonValue, now: i64, score: (String, String), body: String) -> (p: Post)
    ensures
        post_core_matches(p, *post, now as int),
        p.score == score,
        p.body == body,
{
    let null = JsonValue::Null;
    let data: &JsonValue = match post.get("data") {
        Option::Some(d) => d,
        Option::None => &null,
    };
    let (rel_time, created) = {
        let secs = match member(Some(data), "created_utc") {
            Option::Some(v) => match v.as_micros() {
                Option::Some(m) => micros_to_unix_secs(m),
                Option::None => 0,
            },
            Option::None => 0,
        };
        crate::timefmt::time_with_now(secs, now)
    };
    let upvote_ratio: i64 = match member(Some(data), "upvote_ratio") {
        Option::Some(v) => match v.as_micros() {
            Option::Some(m) => micros_to_percent(m),
            Option::None => 100,
        },
        Option::None => 100,
    };
    let (post_type, media, gallery) = Media::parse(data);
    let awards = match data.get("all_awardings") {
        Option::Some(v) => Awards::parse(v),
        Option::None => Awards(Vec::new()),
    };
    let poll = match data.get("poll_data") {
        Option::Some(v) => Poll::parse(v, now),
        Option::None => None,
    };
    let author_ftype = str_or_empty(data.get("author_flair_type"));
    let author_parts = FlairPart::parse(
        author_ftype.as_str(),
        arr_opt(data.get("author_flair_richtext")),
        str_opt(data.get("author_flair_text")),
    );
    let link_ftype = str_or_empty(data.get("link_flair_type"));
    let link_parts = FlairPart::parse(
        link_ftype.as_str(),
        arr_opt(data.get("link_flair_richtext")),
        str_opt(data.get("link_flair_text")),
    );
    let fg = {
        let c = val(post, "link_flair_text_color");
        proof {
            reveal_strlit("dark");
            reveal_strlit("black");
            reveal_strlit("white");
        }
        if crate::strutil::str_eq(c.as_str(), "dark") {
            String::from_str("black")
        } else {
            String::from_str("white")
        }
    };
    let thumb_raw = val(post, "thumbnail");
    let num_comments = i64_or_zero(data.get("num_comments"));
    Post {
        id: val(post, "id"),
        title: val(post, "title"),
        community: val(post, "subreddit"),
        body,
        author: Author {
            name: val(post, "author"),
            flair: Flair {
                flair_parts: author_parts,
                text: val(post, "link_flair_text"),
                background_color: val(post, "author_flair_background_color"),
                foreground_color: val(post, "author_flair_text_color"),
            },
            distinguished: val(post, "distinguished"),
        },
        permalink: val(post, "permalink"),
        poll,
        score,
        upvote_ratio,
        post_type,
        flair: Flair {
            flair_parts: link_parts,
            text: val(post, "link_flair_text"),
            background_color: val(post, "link_flair_background_color"),
            foreground_color: fg,
        },
        flags: Flags {
            nsfw: bool_or_false(data.get("over_18")),
            stickied: bool_or_false(data.get("stickied")) || bool_or_false(data.get("pinned")),
        },
        thumbnail: Media {
            url: crate::urls::format_url(thumb_raw.as_str()),
            alt_url: String::new(),
            width: i64_or_zero(data.get("thumbnail_width")),
            height: i64_or_zero(data.get("thumbnail_height")),
            poster: String::new(),
        },
        media,
        domain: val(post, "domain"),
        rel_time,
        created,
        num_duplicates: u64_or_zero(data.get("num_duplicates")),
        comments: crate::numfmt::format_num(num_comments),
        gallery,
        awards,
        nsfw: bool_or_false(data.get("over_18")),
        ws_url: val(post, "websocket_url"),
    }
}

/// Creates a post record from its node against a clock reading. The
/// score reads as a bullet and `Hidden` when the upstream marks it
/// hidden; the body of a moderator-removed post becomes a fixed notice
/// linking to the given read-only mirror.
pub fn parse_post(post: &JsonValue, now: i64, removed_mirror: &str) -> (p: Post)
    ensures
        post_core_matches(p, *post, now as int),
        score_matches(p, data_or_null(*post)),
        p.body@ == single_body(*post, removed_mirror@),
{
    let score = {
        let null = JsonValue::Null;
        let data: &JsonValue = match post.get("data") {
            Option::Some(d) => d,
            Option::None => &null,
        };
        if bool_or_false(data.get("hide_score")) {
            proof {
                reveal_strlit("\u{2022}");
                reveal_strlit("Hidden");
            }
            (String::from_str("\u{2022}"), String::from_str("Hidden"))
        } else {
            crate::numfmt::format_num(i64_or_zero(data.get("score")))
        }
    };
    let body = {
        let cat = val(post, "removed_by_category");
        proof {
            reveal_strlit("moderator");
        }
        if crate::strutil::str_eq(cat.as_str(), "moderator") {
            let mut b = String::from_str("<div class=\"md\"><p>[removed] \u{2014} <a href=\"https://");
            b.append(removed_mirror);
            let pl = val(post, "permalink");
            b.append(pl.as_str());
            b.append("\">view removed post</a></p></div>");
            proof {
                assert(b@ =~= removed_notice(removed_mirror@, spec_val(*post, "permalink"@)));
            }
            b
        } else {
            let st = val(post, "selftext_html");
            crate::rewrite::rewrite_urls(st.as_str())
        }
    };
    parse_post_core(post, now, score, body)
}

/// Builds the listing entry's score pair and body, then the record.
fn parse_listing_post(post: &JsonValue, now: i64) -> (p: Post)
    ensures
        post_core_matches(p, *post, now as int),
        score_matches(p, data_or_null(*post)),
        p.body@ == listing_body(*post),
{
    let null = JsonValue::Null;
    let score = {
        let data: &JsonValue = match post.get("data") {
            Option::Some(d) => d,
            Option::None => &null,
        };
        if bool_or_false(data.get("hide_score")) {
            proof {
                reveal_strlit("\u{2022}");
                reveal_strlit("Hidden");
            }
            (String::from_str("\u{2022}"), String::from_str("Hidden"))
        } else {
            crate::numfmt::format_num(i64_or_zero(data.get("score")))
        }
    };
    let body = {
        let st = val(post, "selftext_html");
        let b = crate::rewrite::rewrite_urls(st.as_str());
        if b.as_str().unicode_len() == 0 {
            let bh = val(post, "body_html");
            crate::rewrite::rewrite_urls(bh.as_str())
        } else {
            b
        }
    };
    parse_post_core(post, now, score, body)
}

impl Post {
    /// Parses one page of a listing response against a clock reading:
    /// one record per child, in order, and the upstream pagination
    /// cursor verbatim (empty meaning no more pages). Fails exactly
    /// when the response lacks a children array under its data member.
    pub fn parse_page(res: &JsonValue, now: i64) -> (r: Result<(Vec<Post>, String), String>)
        ensures
            (r is Ok) == (jsub(spec_get(*res, "data"@), "children"@) matches Option::Some(
                JsonValue::Arr(_),
            )),
            match r {
                Result::Ok(page) => {
                    &&& page.1@ == jstr_or_empty(jsub(spec_get(*res, "data"@), "after"@))
                    &&& match jsub(spec_get(*res, "data"@), "children"@) {
                        Option::Some(JsonValue::Arr(children)) => page.0@.len() == children@.len()
                            && forall|i: int|
                            0 <= i < children@.len() ==> post_core_matches(
                                #[trigger] page.0@[i],
                                children@[i],
                                now as int,
                            ) && score_matches(page.0@[i], data_or_null(children@[i]))
                                && page.0@[i].body@ == listing_body(children@[i]),
                        _ => false,
                    }
                },
                Result::Err(e) => e@ == "No posts found"@,
            },
    {
        let children = member(member(Some(res), "data"), "children");
        match children {
            Option::Some(JsonValue::Arr(list)) => {
                let n = list.len();
                let mut posts: Vec<Post> = Vec::new();
                let mut i: usize = 0;
                while i < n
                    invariant
                        n == list@.len(),
                        i <= n,
                        posts@.len() == i,
                        forall|j: int|
                            0 <= j < i ==> post_core_matches(
                                #[trigger] posts@[j],
                                list@[j],
                                now as int,
                            ) && score_matches(posts@[j], data_or_null(list@[j]))
                                && posts@[j].body@ == listing_body(list@[j]),
                    decreases n - i,
                {
                    let p = parse_listing_post(&list[i], now);
                    posts.push(p);
                    i += 1;
                }
                let after = str_or_empty(member(member(Some(res), "data"), "after"));
                Ok((posts, after))
            },
            _ => {
                proof {
                    reveal_strlit("No posts found");
                }
                Err(String::from_str("No posts found"))
            },
        }
    }
}

/// The blocklist names the post's community, or its author under a
/// user-page prefix.
pub open spec fn blocked(p: Post, filters: Seq<String>) -> bool {
    (exists|i: int| 0 <= i < filters.len() && (#[trigger] filters[i])@ == p.community@) || (exists|
        i: int,
    |
        0 <= i < filters.len() && (#[trigger] filters[i])@ == "u_"@ + p.author.name@)
}

/// The posts that survive the blocklist, in order.
pub open spec fn kept_posts(s: Seq<Post>, filters: Seq<String>) -> Seq<Post>
    decreases s.len(),
{
    if s.len() == 0 {
        Seq::empty()
    } else {
        kept_posts(s.drop_last(), filters) + (if blocked(s.last(), filters) {
            Seq::empty()
        } else {
            seq![s.last()]
        })
    }
}

/// A blocklist never grows the list it filters.
proof fn lemma_kept_len(s: Seq<Post>, filters: Seq<String>)
    ensures
        kept_posts(s, filters).len() <= s.len(),
    decreases s.len(),
{
    if s.len() > 0 {
        lemma_kept_len(s.drop_last(), filters);
    }
}

/// The blocklist names the given text.
fn filters_contain(filters: &Vec<String>, t: &str) -> (r: bool)
    ensures
        r == exists|i: int| 0 <= i < filters@.len() && (#[trigger] filters@[i])@ == t@,
{
    let n = filters.len();
    let mut i: usize = 0;
    while i < n
        invariant
            n == filters@.len(),
            i <= n,
            forall|j: int| 0 <= j < i ==> (#[trigger] filters@[j])@ != t@,
        decreases n - i,
    {
        if crate::strutil::str_eq(filters[i].as_str(), t) {
            return true;
        }
        i += 1;
    }
    false
}

/// Removes, in place, every post whose community or author (under the
/// user-page prefix) the blocklist names, keeping the order of the
/// rest. Returns how many were removed, and whether a non-empty input
/// was emptied entirely; an already-empty input is left as is.
pub fn filter_posts(posts: &mut Vec<Post>, filters: &Vec<String>) -> (r: (u64, bool))
    ensures
        final(posts)@ == kept_posts(old(posts)@, filters@),
        final(posts)@.len() + r.0 == old(posts)@.len(),
        r.1 == (old(posts)@.len() > 0 && final(posts)@.len() == 0),
{
    let n = posts.len();
    if n == 0 {
        proof {
            assert(kept_posts(old(posts)@, filters@) =~= old(posts)@);
        }
        return (0, false);
    }
    let mut i: usize = 0;
    let ghost mut j: int = 0;
    while i < posts.len()
        invariant
            0 <= j <= old(posts)@.len(),
            i <= posts@.len(),
            i as int == kept_posts(old(posts)@.take(j), filters@).len(),
            posts@ =~= kept_posts(old(posts)@.take(j), filters@) + old(posts)@.skip(j),
            posts@.len() == i + (old(posts)@.len() - j),
        decreases posts@.len() - i,
    {
        proof {
            assert(j < old(posts)@.len());
            assert(old(posts)@.take(j + 1).drop_last() =~= old(posts)@.take(j));
            assert(old(posts)@.take(j + 1).last() == old(posts)@[j]);
            assert(posts@[i as int] == old(posts)@[j]);
        }
        let community_hit = filters_contain(filters, posts[i].community.as_str());
        let user_key = {
            let mut k = String::from_str("u_");
            k.append(posts[i].author.name.as_str());
            proof {
                reveal_strlit("u_");
                assert(k@ == "u_"@ + old(posts)@[j].author.name@);
            }
            k
        };
        let author_hit = filters_contain(filters, user_key.as_str());
        if community_hit || author_hit {
            proof {
                assert(blocked(old(posts)@[j], filters@));
            }
            posts.remove(i);
            proof {
                j = j + 1;
                assert(posts@ =~= kept_posts(old(posts)@.take(j), filters@) + old(posts)@.skip(j));
            }
        } else {
            proof {
                assert(!blocked(old(posts)@[j], filters@));
            }
            i += 1;
            proof {
                j = j + 1;
                assert(posts@ =~= kept_posts(old(posts)@.take(j), filters@) + old(posts)@.skip(j));
            }
        }
    }
    proof {
        assert(j == old(posts)@.len());
        assert(old(posts)@.take(j) =~= old(posts)@);
        assert(posts@ =~= kept_posts(old(posts)@, filters@));
    }
    proof {
        lemma_kept_len(old(posts)@, filters@);
    }
    let remaining = posts.len();
    let removed: u64 = (n - remaining) as u64;
    (removed, remaining == 0)
}

} // verus!

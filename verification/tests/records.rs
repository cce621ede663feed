use redlib_core::{
    filter_posts, get_filters, nsfw_landing_resource, parse_post, setting_of, setting_or_default,
    sfw_only, should_be_nsfw_gated, val, Award, Awards, Comment, FlairPart, JsonValue, Media,
    Poll, PollOption, Post, Preferences, ResourceType, Subreddit, User,
};

fn jstr(v: &str) -> JsonValue {
    JsonValue::Str(v.to_string())
}

fn jint(v: i64) -> JsonValue {
    JsonValue::IntNum(v)
}

fn jbool(v: bool) -> JsonValue {
    JsonValue::Bool(v)
}

fn jobj(pairs: Vec<(&str, JsonValue)>) -> JsonValue {
    JsonValue::Obj(pairs.into_iter().map(|(k, v)| (k.to_string(), v)).collect())
}

fn jarr(items: Vec<JsonValue>) -> JsonValue {
    JsonValue::Arr(items)
}

fn post_node(data_pairs: Vec<(&str, JsonValue)>) -> JsonValue {
    jobj(vec![("data", jobj(data_pairs))])
}

#[test]
fn gallery_resolution_preserves_order_and_selects_gif_urls() {
    let data = jobj(vec![
        ("is_gallery", jbool(true)),
        (
            "gallery_data",
            jobj(vec![(
                "items",
                jarr(vec![
                    jobj(vec![("media_id", jstr("m1")), ("caption", jstr("first"))]),
                    jobj(vec![("media_id", jstr("m2")), ("outbound_url", jstr("https://example.com/x"))]),
                ]),
            )]),
        ),
        (
            "media_metadata",
            jobj(vec![
                (
                    "m1",
                    jobj(vec![
                        ("m", jstr("image/gif")),
                        (
                            "s",
                            jobj(vec![
                                ("gif", jstr("https://i.redd.it/a.gif")),
                                ("u", jstr("https://i.redd.it/a.png")),
                                ("x", jint(10)),
                                ("y", jint(20)),
                            ]),
                        ),
                    ]),
                ),
                (
                    "m2",
                    jobj(vec![
                        ("m", jstr("image/jpg")),
                        (
                            "s",
                            jobj(vec![
                                ("gif", jstr("https://i.redd.it/b.gif")),
                                ("u", jstr("https://i.redd.it/b.jpg")),
                                ("x", jint(1)),
                                ("y", jint(2)),
                            ]),
                        ),
                    ]),
                ),
            ]),
        ),
        ("url", jstr("https://www.reddit.com/gallery/abc")),
    ]);
    let (post_type, _media, gallery) = Media::parse(&data);
    assert_eq!(post_type, "gallery");
    assert_eq!(gallery.len(), 2);
    assert_eq!(gallery[0].url, "/img/a.gif");
    assert_eq!(gallery[0].caption, "first");
    assert_eq!(gallery[0].width, 10);
    assert_eq!(gallery[0].height, 20);
    assert_eq!(gallery[1].url, "/img/b.jpg");
    assert_eq!(gallery[1].outbound_url, "https://example.com/x");
}

#[test]
fn nsfw_video_post_resolves_from_secure_media() {
    let post = post_node(vec![
        ("title", jstr("clip")),
        ("over_18", jbool(true)),
        (
            "secure_media",
            jobj(vec![(
                "reddit_video",
                jobj(vec![
                    ("fallback_url", jstr("https://v.redd.it/abc/DASH_720.mp4?source=fallback")),
                    ("hls_url", jstr("https://v.redd.it/abc/HLSPlaylist.m3u8")),
                ]),
            )]),
        ),
    ]);
    let p = parse_post(&post, 1700000000, "undelete.pullpush.io");
    assert_eq!(p.post_type, "video");
    assert_eq!(p.media.url, "/vid/abc/720.mp4");
    assert_eq!(p.media.alt_url, "/hls/abc/HLSPlaylist.m3u8");
    assert!(p.nsfw);
    assert!(p.flags.nsfw);
    assert_eq!(p.title, "clip");
}

#[test]
fn video_preview_takes_priority_and_gif_flag_wins() {
    let post = post_node(vec![
        (
            "preview",
            jobj(vec![(
                "reddit_video_preview",
                jobj(vec![
                    ("fallback_url", jstr("https://v.redd.it/pre/DASH_360.mp4")),
                    ("is_gif", jbool(true)),
                ]),
            )]),
        ),
        (
            "secure_media",
            jobj(vec![(
                "reddit_video",
                jobj(vec![("fallback_url", jstr("https://v.redd.it/sec/DASH_360.mp4"))]),
            )]),
        ),
    ]);
    let p = parse_post(&post, 0, "undelete.pullpush.io");
    assert_eq!(p.post_type, "gif");
    assert_eq!(p.media.url, "/vid/pre/360.mp4");
}

#[test]
fn self_post_uses_permalink_and_rewritten_body() {
    let post = post_node(vec![
        ("is_self", jbool(true)),
        ("permalink", jstr("/r/rust/comments/x/")),
        (
            "selftext_html",
            jstr("<a href=\"https://www.reddit.com/r/rust/\">link</a>"),
        ),
        ("created_utc", jint(1609459200)),
    ]);
    let p = parse_post(&post, 1609459200 + 60, "undelete.pullpush.io");
    assert_eq!(p.post_type, "self");
    assert_eq!(p.media.url, "/r/rust/comments/x/");
    assert_eq!(p.body, "<a href=\"/r/rust/\">link</a>");
    assert_eq!(p.rel_time, "1m ago");
    assert_eq!(p.created, "Jan 01 2021, 00:00:00 UTC");
}

#[test]
fn removed_post_body_links_to_the_mirror() {
    let post = post_node(vec![
        ("removed_by_category", jstr("moderator")),
        ("permalink", jstr("/r/rust/comments/x/")),
        ("selftext_html", jstr("gone")),
    ]);
    let p = parse_post(&post, 0, "undelete.pullpush.io");
    assert_eq!(
        p.body,
        "<div class=\"md\"><p>[removed] \u{2014} <a href=\"https://undelete.pullpush.io/r/rust/comments/x/\">view removed post</a></p></div>"
    );
}

#[test]
fn score_and_flair_are_normalized() {
    let post = post_node(vec![
        ("score", jint(1999)),
        ("upvote_ratio", JsonValue::FloatNum(870000)),
        ("link_flair_text_color", jstr("dark")),
        (
            "link_flair_richtext",
            jarr(vec![
                jobj(vec![("e", jstr("text")), ("t", jstr("hello"))]),
                jobj(vec![("e", jstr("emoji")), ("u", jstr("https://emoji.redditmedia.com/q/w"))]),
            ]),
        ),
        ("link_flair_type", jstr("richtext")),
    ]);
    let p = parse_post(&post, 0, "undelete.pullpush.io");
    assert_eq!(p.score, ("2.0k".to_string(), "1999".to_string()));
    assert_eq!(p.upvote_ratio, 87);
    assert_eq!(p.flair.foreground_color, "black");
    assert_eq!(p.flair.flair_parts.len(), 2);
    assert_eq!(p.flair.flair_parts[0].flair_part_type, "text");
    assert_eq!(p.flair.flair_parts[0].value, "hello");
    assert_eq!(p.flair.flair_parts[1].flair_part_type, "emoji");
    assert_eq!(p.flair.flair_parts[1].value, "/emoji/q/w");
}

#[test]
fn single_post_hides_a_hidden_score() {
    let post = post_node(vec![("hide_score", jbool(true)), ("score", jint(42))]);
    let p = parse_post(&post, 0, "undelete.pullpush.io");
    assert_eq!(p.score, ("\u{2022}".to_string(), "Hidden".to_string()));
}

#[test]
fn page_parsing_fails_without_a_children_array() {
    let res = jobj(vec![("data", jobj(vec![("after", jstr("t3_x"))]))]);
    let r = Post::parse_page(&res, 0);
    assert_eq!(r.err(), Some("No posts found".to_string()));
}

#[test]
fn page_parsing_keeps_cursor_and_hides_scores() {
    let res = jobj(vec![(
        "data",
        jobj(vec![
            (
                "children",
                jarr(vec![
                    post_node(vec![("id", jstr("p1")), ("hide_score", jbool(true)), ("score", jint(7))]),
                    post_node(vec![("id", jstr("p2")), ("score", jint(7))]),
                ]),
            ),
            ("after", jstr("t3_cursor")),
        ]),
    )]);
    let (posts, after) = Post::parse_page(&res, 0).unwrap();
    assert_eq!(after, "t3_cursor");
    assert_eq!(posts.len(), 2);
    assert_eq!(posts[0].id, "p1");
    assert_eq!(posts[0].score, ("\u{2022}".to_string(), "Hidden".to_string()));
    assert_eq!(posts[1].score, ("7".to_string(), "7".to_string()));
}

#[test]
fn filtering_removes_by_community_and_author() {
    let mk = |sub: &str, author: &str| {
        parse_post(
            &post_node(vec![("subreddit", jstr(sub)), ("author", jstr(author))]),
            0,
            "undelete.pullpush.io",
        )
    };
    let mut posts = vec![mk("rust", "alice"), mk("cats", "bob"), mk("rust", "carol")];
    let filters = vec!["cats".to_string(), "u_carol".to_string()];
    let (removed, all_removed) = filter_posts(&mut posts, &filters);
    assert_eq!(removed, 2);
    assert!(!all_removed);
    assert_eq!(posts.len(), 1);
    assert_eq!(posts[0].author.name, "alice");

    let (removed, all_removed) = filter_posts(&mut posts, &vec!["rust".to_string()]);
    assert_eq!(removed, 1);
    assert!(all_removed);
    assert_eq!(posts.len(), 0);

    let (removed, all_removed) = filter_posts(&mut posts, &vec!["rust".to_string()]);
    assert_eq!(removed, 0);
    assert!(!all_removed);
}

#[test]
fn poll_parsing_and_vote_maximum() {
    let pd = jobj(vec![
        ("total_vote_count", jint(10)),
        ("voting_end_timestamp", JsonValue::FloatNum(1609459200_000_000_000)),
        (
            "options",
            jarr(vec![
                jobj(vec![("id", jstr("1")), ("text", jstr("a")), ("vote_count", jint(4))]),
                jobj(vec![("id", jstr("2")), ("text", jstr("b")), ("vote_count", jint(6))]),
                jobj(vec![("id", jstr("oops")), ("text", jstr("dropped"))]),
                jobj(vec![("id", jstr("3")), ("text", jstr("hidden"))]),
            ]),
        ),
    ]);
    let poll = Poll::parse(&pd, 1609459200).unwrap();
    assert_eq!(poll.total_vote_count, 10);
    assert_eq!(poll.poll_options.len(), 3);
    assert_eq!(poll.poll_options[0].id, 1);
    assert_eq!(poll.poll_options[2].vote_count, None);
    assert_eq!(poll.most_votes(), 6);
    assert_eq!(poll.voting_end_timestamp.1, "Jan 01 2021, 00:00:00 UTC");

    assert!(Poll::parse(&jstr("not an object"), 0).is_none());
    let no_total = jobj(vec![("voting_end_timestamp", jint(0)), ("options", jarr(vec![]))]);
    assert!(Poll::parse(&no_total, 0).is_none());
}

#[test]
fn empty_poll_has_no_votes() {
    let poll = Poll {
        poll_options: vec![
            PollOption { id: 1, text: "a".to_string(), vote_count: None },
            PollOption { id: 2, text: "b".to_string(), vote_count: None },
        ],
        voting_end_timestamp: (String::new(), String::new()),
        total_vote_count: 0,
    };
    assert_eq!(poll.most_votes(), 0);
}

#[test]
fn award_counts_default_to_one() {
    let items = jarr(vec![
        jobj(vec![
            ("name", jstr("gold")),
            ("count", jint(3)),
            (
                "resized_icons",
                jarr(vec![jobj(vec![("url", jstr("https://www.redditstatic.com/gold.png"))])]),
            ),
        ]),
        jobj(vec![("name", jstr("odd")), ("count", jstr("3"))]),
        jobj(vec![("name", jstr("none"))]),
        jobj(vec![("name", jstr("negative")), ("count", jint(-5))]),
    ]);
    let awards = Awards::parse(&items);
    assert_eq!(awards.0.len(), 4);
    assert_eq!(awards.0[0].count, 3);
    assert_eq!(awards.0[0].icon_url, "/static/gold.png");
    assert_eq!(awards.0[1].count, 1);
    assert_eq!(awards.0[2].count, 1);
    assert_eq!(awards.0[3].count, 1);

    let not_a_list = Awards::parse(&jstr("x"));
    assert_eq!(not_a_list.0.len(), 0);
}

#[test]
fn flair_parts_parse_by_kind() {
    let rich = vec![
        jobj(vec![("e", jstr("text")), ("t", jstr("hi"))]),
        jobj(vec![("e", jstr("emoji")), ("u", jstr("https://emoji.redditmedia.com/a/b"))]),
        jobj(vec![("e", jstr("other"))]),
    ];
    let parts = FlairPart::parse("richtext", Some(&rich), None);
    assert_eq!(parts.len(), 3);
    assert_eq!(parts[0].value, "hi");
    assert_eq!(parts[1].value, "/emoji/a/b");
    assert_eq!(parts[2].value, "");

    let parts = FlairPart::parse("text", None, Some("plain"));
    assert_eq!(parts.len(), 1);
    assert_eq!(parts[0].flair_part_type, "text");
    assert_eq!(parts[0].value, "plain");

    assert_eq!(FlairPart::parse("unknown", None, None).len(), 0);
}

#[test]
fn preferences_read_settings_and_split_lists() {
    let settings = vec![
        ("theme".to_string(), "dark".to_string()),
        ("subscriptions".to_string(), "rust+cats".to_string()),
        ("filters".to_string(), "a++b+".to_string()),
    ];
    let prefs = Preferences::new(&settings, vec!["midnight.css".to_string(), "paper.css".to_string()]);
    assert_eq!(prefs.theme, "dark");
    assert_eq!(prefs.fixed_navbar, "on");
    assert_eq!(prefs.subscriptions, vec!["rust".to_string(), "cats".to_string()]);
    assert_eq!(prefs.filters, vec!["a".to_string(), "b".to_string()]);
    assert_eq!(
        prefs.available_themes,
        vec!["system".to_string(), "midnight".to_string(), "paper".to_string()]
    );

    assert_eq!(setting_of(&settings, "theme"), "dark");
    assert_eq!(setting_of(&settings, "missing"), "");
    assert_eq!(get_filters(""), Vec::<String>::new());
    assert_eq!(get_filters("only"), vec!["only".to_string()]);
}

#[test]
fn nsfw_gating_rules() {
    assert!(sfw_only(&Some("on".to_string())));
    assert!(!sfw_only(&Some("off".to_string())));
    assert!(!sfw_only(&None));

    // Viewer has not enabled adult content: gated.
    assert!(should_be_nsfw_gated("", false, "/r/x"));
    // Enabled, ordinary instance: not gated.
    assert!(!should_be_nsfw_gated("on", false, "/r/x"));
    // A safe-for-work instance gates regardless, and ignores the bypass.
    assert!(should_be_nsfw_gated("on", true, "/r/x?&bypass_nsfw_landing"));
    // The bypass works only off a safe-for-work instance.
    assert!(!should_be_nsfw_gated("", false, "/r/x?&bypass_nsfw_landing"));
}

#[test]
fn val_reads_data_members() {
    let post = post_node(vec![("subreddit", jstr("rust"))]);
    assert_eq!(val(&post, "subreddit"), "rust");
    assert_eq!(val(&post, "missing"), "");
    assert_eq!(val(&jstr("no data"), "subreddit"), "");
}

#[test]
fn landing_resource_picks_user_then_post_then_community() {
    assert_eq!(nsfw_landing_resource("alice", "x1", "rust"), (ResourceType::User, "alice".to_string()));
    assert_eq!(nsfw_landing_resource("", "x1", "rust"), (ResourceType::Post, "x1".to_string()));
    assert_eq!(nsfw_landing_resource("", "", "rust"), (ResourceType::Subreddit, "rust".to_string()));
}

#[test]
fn empty_settings_fall_back_to_defaults() {
    assert_eq!(setting_or_default(String::new(), "on".to_string()), "on");
    assert_eq!(setting_or_default("off".to_string(), "on".to_string()), "off");
}

#[test]
fn zero_records_are_empty() {
    let u = User::default();
    assert_eq!(u.name, "");
    assert_eq!(u.karma, 0);
    assert!(!u.nsfw);
    let s = Subreddit::default();
    assert_eq!(s.members, (String::new(), String::new()));
    assert!(!s.wiki);
    let a = Award::default();
    assert_eq!(a.count, 0);
    let p = Preferences::default();
    assert_eq!(p.filters.len(), 0);
}

#[test]
fn comments_nest_without_back_references() {
    let leaf = Comment {
        id: "c2".to_string(),
        kind: "t1".to_string(),
        parent_id: "c1".to_string(),
        parent_kind: "t1".to_string(),
        post_link: "/r/rust/comments/x/".to_string(),
        post_author: "alice".to_string(),
        body: String::new(),
        author: redlib_core::Author {
            name: "bob".to_string(),
            flair: redlib_core::Flair {
                flair_parts: Vec::new(),
                text: String::new(),
                background_color: String::new(),
                foreground_color: String::new(),
            },
            distinguished: String::new(),
        },
        score: ("1".to_string(), "1".to_string()),
        rel_time: String::new(),
        created: String::new(),
        edited: (String::new(), String::new()),
        replies: Vec::new(),
        highlighted: false,
        awards: Awards(Vec::new()),
        collapsed: false,
        is_filtered: false,
        more_count: 0,
        prefs: Preferences::default(),
    };
    let root = Comment { id: "c1".to_string(), replies: vec![leaf], ..make_empty_comment() };
    assert_eq!(root.replies.len(), 1);
    assert_eq!(root.replies[0].parent_id, root.id);
}

fn make_empty_comment() -> Comment {
    Comment {
        id: String::new(),
        kind: String::new(),
        parent_id: String::new(),
        parent_kind: String::new(),
        post_link: String::new(),
        post_author: String::new(),
        body: String::new(),
        author: redlib_core::Author {
            name: String::new(),
            flair: redlib_core::Flair {
                flair_parts: Vec::new(),
                text: String::new(),
                background_color: String::new(),
                foreground_color: String::new(),
            },
            distinguished: String::new(),
        },
        score: (String::new(), String::new()),
        rel_time: String::new(),
        created: String::new(),
        edited: (String::new(), String::new()),
        replies: Vec::new(),
        highlighted: false,
        awards: Awards(Vec::new()),
        collapsed: false,
        is_filtered: false,
        more_count: 0,
        prefs: Preferences::default(),
    }
}

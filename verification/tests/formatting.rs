use redlib_core::{format_num, format_url, param, parse_u64, rewrite_urls, time_with_now};

#[test]
fn format_num_works() {
    assert_eq!(format_num(567), ("567".to_string(), "567".to_string()));
    assert_eq!(format_num(1234), ("1.2k".to_string(), "1234".to_string()));
    assert_eq!(format_num(1999), ("2.0k".to_string(), "1999".to_string()));
    assert_eq!(format_num(1001), ("1.0k".to_string(), "1001".to_string()));
    assert_eq!(format_num(1_999_999), ("2.0m".to_string(), "1999999".to_string()));
}

#[test]
fn format_num_small_magnitudes_match_exact() {
    assert_eq!(format_num(0), ("0".to_string(), "0".to_string()));
    assert_eq!(format_num(999), ("999".to_string(), "999".to_string()));
    assert_eq!(format_num(-999), ("-999".to_string(), "-999".to_string()));
    assert_eq!(format_num(-1234), ("-1.2k".to_string(), "-1234".to_string()));
    assert_eq!(format_num(1_050_000), ("1.0m".to_string(), "1050000".to_string()));
    assert_eq!(format_num(1_150_000), ("1.2m".to_string(), "1150000".to_string()));
}

#[test]
fn rewrite_urls_removes_backslashes_and_rewrites_url() {
    assert_eq!(
        rewrite_urls(
            "<a href=\"https://new.reddit.com/r/linux%5C_gaming/comments/x/just%5C_a%5C_test%5C/\">https://new.reddit.com/r/linux\\_gaming/comments/x/just\\_a\\_test/</a>"
        ),
        "<a href=\"/r/linux_gaming/comments/x/just_a_test/\">https://new.reddit.com/r/linux_gaming/comments/x/just_a_test/</a>"
    );
    assert_eq!(
        rewrite_urls(
            "e.g. &lt;a href=\"https://www.reddit.com/r/linux%5C_gaming/comments/ql9j15/anyone%5C_else%5C_confused%5C_with%5C_linus%5C_linux%5C_issues/\"&gt;https://www.reddit.com/r/linux\\_gaming/comments/ql9j15/anyone\\_else\\_confused\\_with\\_linus\\_linux\\_issues/&lt;/a&gt;"
        ),
        "e.g. &lt;a href=\"/r/linux_gaming/comments/ql9j15/anyone_else_confused_with_linus_linux_issues/\"&gt;https://www.reddit.com/r/linux_gaming/comments/ql9j15/anyone_else_confused_with_linus_linux_issues/&lt;/a&gt;"
    );
}

#[test]
fn rewrite_urls_keeps_intentional_backslashes() {
    assert_eq!(
        rewrite_urls("printf \"\\npolkit.addRule(function(action, subject)"),
        "printf \"\\npolkit.addRule(function(action, subject)"
    );
}

#[test]
fn rewrite_urls_leaves_unrelated_escapes_alone() {
    // Without a rewritten upstream anchor anywhere, escaped-backslash
    // sequences in prose are kept byte for byte.
    assert_eq!(rewrite_urls("%5C"), "%5C");
    assert_eq!(rewrite_urls("a\\_b and %5C elsewhere"), "a\\_b and %5C elsewhere");
    assert_eq!(rewrite_urls("%%5C5C"), "%%5C5C");
}

#[test]
fn rewrite_urls_is_idempotent_on_its_outputs() {
    let once = rewrite_urls(
        "<a href=\"https://new.reddit.com/r/linux%5C_gaming/comments/x/just%5C_a%5C_test%5C/\">https://new.reddit.com/r/linux\\_gaming/comments/x/just\\_a\\_test/</a>"
    );
    assert_eq!(rewrite_urls(&once), once);
    let once = rewrite_urls(
        "e.g. &lt;a href=\"https://www.reddit.com/r/linux%5C_gaming/comments/ql9j15/anyone%5C_else%5C_confused%5C_with%5C_linus%5C_linux%5C_issues/\"&gt;https://www.reddit.com/r/linux\\_gaming/comments/ql9j15/anyone\\_else\\_confused\\_with\\_linus\\_linux\\_issues/&lt;/a&gt;"
    );
    assert_eq!(rewrite_urls(&once), once);
}

#[test]
fn test_format_url() {
    assert_eq!(format_url("https://a.thumbs.redditmedia.com/XYZ.jpg"), "/thumb/a/XYZ.jpg");
    assert_eq!(format_url("https://emoji.redditmedia.com/a/b"), "/emoji/a/b");

    assert_eq!(
        format_url("https://external-preview.redd.it/foo.jpg?auto=webp&s=bar"),
        "/preview/external-pre/foo.jpg?auto=webp&s=bar"
    );

    assert_eq!(format_url("https://i.redd.it/foobar.jpg"), "/img/foobar.jpg");
    assert_eq!(
        format_url("https://preview.redd.it/qwerty.jpg?auto=webp&s=asdf"),
        "/preview/pre/qwerty.jpg?auto=webp&s=asdf"
    );
    assert_eq!(format_url("https://v.redd.it/foo/DASH_360.mp4?source=fallback"), "/vid/foo/360.mp4");
    assert_eq!(
        format_url("https://v.redd.it/foo/HLSPlaylist.m3u8?a=bar&v=1&f=sd"),
        "/hls/foo/HLSPlaylist.m3u8?a=bar&v=1&f=sd"
    );
    assert_eq!(format_url("https://www.redditstatic.com/gold/awards/icon/icon.png"), "/static/gold/awards/icon/icon.png");
    assert_eq!(
        format_url("https://www.redditstatic.com/marketplace-assets/v1/core/emotes/snoomoji_emotes/free_emotes_pack/shrug.gif"),
        "/static/marketplace-assets/v1/core/emotes/snoomoji_emotes/free_emotes_pack/shrug.gif"
    );

    assert_eq!(format_url(""), "");
    assert_eq!(format_url("self"), "");
    assert_eq!(format_url("default"), "");
    assert_eq!(format_url("nsfw"), "");
    assert_eq!(format_url("spoiler"), "");
}

#[test]
fn test_rewriting_emoji() {
    let input = r#"<div class="md"><p>How can you have such hard feelings towards a license? <img src="https://www.redditstatic.com/marketplace-assets/v1/core/emotes/snoomoji_emotes/free_emotes_pack/shrug.gif" width="20" height="20" style="vertical-align:middle"> Let people use what license they want, and BSD is one of the least restrictive ones AFAIK.</p>"#;
    let output = r#"<div class="md"><p>How can you have such hard feelings towards a license? <img src="/static/marketplace-assets/v1/core/emotes/snoomoji_emotes/free_emotes_pack/shrug.gif" width="20" height="20" style="vertical-align:middle"> Let people use what license they want, and BSD is one of the least restrictive ones AFAIK.</p>"#;
    assert_eq!(rewrite_urls(input), output);
}

#[test]
fn format_url_passes_foreign_urls_through() {
    assert_eq!(format_url("https://example.com/a/b?c=d"), "https://example.com/a/b?c=d");
    assert_eq!(format_url("not a url at all"), "not a url at all");
    assert_eq!(format_url("https://www.reddit.com/r/rust/"), "/r/rust/");
    assert_eq!(format_url("https://old.reddit.com/r/rust/"), "/r/rust/");
    assert_eq!(format_url("https://np.reddit.com/x"), "/x");
    assert_eq!(format_url("https://reddit.com/x"), "/x");
    assert_eq!(format_url("https://b.thumbs.redditmedia.com/p.png"), "/thumb/b/p.png");
    assert_eq!(format_url("https://styles.redditmedia.com/t.css"), "/style/t.css");
}

#[test]
fn format_url_drops_unknown_shapes_on_proxied_domains() {
    // A proxied video domain whose URL matches neither known shape must
    // not leak the original host.
    assert_eq!(format_url("https://v.redd.it/justanid"), "");
    assert_eq!(format_url("https://v.redd.it/foo/Unrelated.bin"), "");
    // An emoji URL without a second path segment does not match.
    assert_eq!(format_url("https://emoji.redditmedia.com/solo"), "");
}

#[test]
fn time_rendering_is_exact() {
    let (rel, abs) = time_with_now(0, 0);
    assert_eq!(rel, "0m ago");
    assert_eq!(abs, "Jan 01 1970, 00:00:00 UTC");

    let (rel, abs) = time_with_now(1609459200, 1609459200 + 3 * 86400);
    assert_eq!(rel, "3d ago");
    assert_eq!(abs, "Jan 01 2021, 00:00:00 UTC");

    let (rel, _) = time_with_now(1609459200 + 7200, 1609459200);
    assert_eq!(rel, "2h left");

    // Exactly thirty days away renders the short date form.
    let (rel, _) = time_with_now(1609459200, 1609459200 + 2592000);
    assert_eq!(rel, "Jan 01 '21");

    // Out-of-range timestamps fall back to the epoch.
    let (_, abs) = time_with_now(i64::MAX, 0);
    assert_eq!(abs, "Jan 01 1970, 00:00:00 UTC");

    let (_, abs) = time_with_now(951827696, 951827696);
    assert_eq!(abs, "Feb 29 2000, 12:34:56 UTC");
}

#[test]
fn param_takes_last_query_pair() {
    assert_eq!(param("/r/rust/?sort=hot", "sort"), Some("hot".to_string()));
    assert_eq!(param("/r/rust/?sort=hot&sort=new", "sort"), Some("new".to_string()));
    assert_eq!(param("/r/rust/?sort=hot", "after"), None);
    assert_eq!(param("/r/rust/", "sort"), None);
    assert_eq!(param("/search?q=a%20b", "q"), Some("a b".to_string()));
}

#[test]
fn parse_u64_accepts_decimal_strings_only() {
    assert_eq!(parse_u64("0"), Some(0));
    assert_eq!(parse_u64("+17"), Some(17));
    assert_eq!(parse_u64("00042"), Some(42));
    assert_eq!(parse_u64("18446744073709551615"), Some(u64::MAX));
    assert_eq!(parse_u64("18446744073709551616"), None);
    assert_eq!(parse_u64(""), None);
    assert_eq!(parse_u64("+"), None);
    assert_eq!(parse_u64("-3"), None);
    assert_eq!(parse_u64("12x"), None);
}

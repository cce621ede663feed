//! Per-request preferences built from transport-provided key/value
//! settings, and the site-wide safe-for-work gate.

use vstd::prelude::*;

use crate::strutil::{find_at, lemma_find_at_some};
use crate::entities::ResourceType;

verus! {

/// Value of the first settings pair with the given name, or empty.
pub open spec fn lookup_setting(s: Seq<(String, String)>, name: Seq<char>, i: int) -> Seq<char>
    decreases s.len() - i,
{
    if 0 <= i < s.len() {
        if s[i].0@ == name {
            s[i].1@
        } else {
            lookup_setting(s, name, i + 1)
        }
    } else {
        Seq::<char>::empty()
    }
}

/// The named setting, or the default when the lookup is empty.
pub open spec fn setting_or(s: Seq<(String, String)>, name: Seq<char>, dflt: Seq<char>) -> Seq<
    char,
> {
    let v = lookup_setting(s, name, 0);
    if v.len() == 0 {
        dflt
    } else {
        v
    }
}

/// The entries of a delimiter-joined list: split on `+`, empty entries
/// dropped.
pub open spec fn split_plus(s: Seq<char>) -> Seq<Seq<char>>
    decreases s.len(),
    via split_plus_decreases
{
    match find_at(s, seq!['+'], 0) {
        Option::None => if s.len() > 0 {
            seq![s]
        } else {
            Seq::empty()
        },
        Option::Some(j) => (if j > 0 {
            seq![s.subrange(0, j)]
        } else {
            Seq::empty()
        }) + split_plus(s.subrange(j + 1, s.len() as int)),
    }
}

#[via_fn]
proof fn split_plus_decreases(s: Seq<char>) {
    if find_at(s, seq!['+'], 0) is Some {
        lemma_find_at_some(s, seq!['+'], 0);
    }
}

/// Looks a setting up by name: the value of its first pair, or empty.
pub fn setting_of(settings: &Vec<(String, String)>, name: &str) -> (r: String)
    ensures
        r@ == lookup_setting(settings@, name@, 0),
{
    let n = settings.len();
    let mut i: usize = 0;
    while i < n
        invariant
            n == settings@.len(),
            i <= n,
            lookup_setting(settings@, name@, 0) == lookup_setting(settings@, name@, i as int),
        decreases n - i,
    {
        if crate::strutil::str_eq(settings[i].0.as_str(), name) {
            return settings[i].1.clone();
        }
        i += 1;
    }
    String::new()
}

/// The given setting value, or the default when it is empty.
pub fn setting_or_default(value: String, default: String) -> (r: String)
    ensures
        r@ == (if value@.len() == 0 {
            default@
        } else {
            value@
        }),
{
    if value.as_str().unicode_len() == 0 {
        default
    } else {
        value
    }
}

/// Splits a delimiter-joined list setting into its entries, dropping
/// empty ones.
pub fn get_filters(joined: &str) -> (r: Vec<String>)
    ensures
        r@.len() == split_plus(joined@).len(),
        forall|i: int| 0 <= i < r@.len() ==> (#[trigger] r@[i])@ == split_plus(joined@)[i],
{
    let plus = "+";
    proof {
        reveal_strlit("+");
        assert(plus@ =~= seq!['+']);
    }
    let mut out: Vec<String> = Vec::new();
    let mut tail: String = joined.to_owned();
    loop
        invariant
            plus@ == seq!['+'],
            ({
                let m = split_plus(joined@);
                let k = out@.len() as int;
                &&& out@.len() + split_plus(tail@).len() == m.len()
                &&& (forall|i: int| 0 <= i < k ==> (#[trigger] out@[i])@ == m[i])
                &&& (forall|i: int|
                    0 <= i < split_plus(tail@).len() ==> #[trigger] split_plus(tail@)[i] == m[k
                        + i])
            }),
        decreases tail@.len() + 1,
    {
        let ghost m = split_plus(joined@);
        let ghost k = out@.len() as int;
        let ghost oldtail = tail@;
        match crate::strutil::find_from(tail.as_str(), plus, 0) {
            Option::None => {
                if tail.as_str().unicode_len() > 0 {
                    proof {
                        assert(split_plus(oldtail) =~= seq![oldtail]);
                        assert(split_plus(oldtail)[0] == m[k]);
                    }
                    out.push(tail);
                    proof {
                        assert(out@.len() == m.len());
                        assert(out@[k]@ == oldtail && oldtail == m[k]);
                    }
                } else {
                    proof {
                        assert(split_plus(oldtail) =~= Seq::<Seq<char>>::empty());
                    }
                }
                return out;
            },
            Option::Some(j) => {
                proof {
                    lemma_find_at_some(tail@, seq!['+'], 0);
                }
                let ghost pc: int = if j > 0 {
                    1
                } else {
                    0
                };
                if j > 0 {
                    let head = crate::strutil::substr(tail.as_str(), 0, j);
                    out.push(head);
                }
                let tlen = tail.as_str().unicode_len();
                let rest = crate::strutil::substr(tail.as_str(), j + 1, tlen);
                tail = rest;
                proof {
                    assert(split_plus(oldtail) == (if 0 < j {
                        seq![oldtail.subrange(0, j as int)]
                    } else {
                        Seq::<Seq<char>>::empty()
                    }) + split_plus(tail@));
                    assert(out@.len() == k + pc);
                    if j > 0 {
                        assert(split_plus(oldtail)[0] == oldtail.subrange(0, j as int));
                        assert((#[trigger] out@[k])@ == m[k]);
                    }
                    assert forall|i: int|
                        0 <= i < split_plus(tail@).len() implies #[trigger] split_plus(tail@)[i]
                        == m[k + pc + i] by {
                        assert(split_plus(oldtail)[pc + i] == split_plus(tail@)[i]);
                        assert(split_plus(oldtail)[pc + i] == m[k + (pc + i)]);
                    }
                }
            },
        }
    }
}

/// The display name of a theme asset: the file name up to its first
/// stylesheet extension, the whole name when it has none.
pub open spec fn theme_stem(name: Seq<char>) -> Seq<char> {
    match find_at(name, ".css"@, 0) {
        Option::Some(j) => name.subrange(0, j),
        Option::None => name,
    }
}

/// The display name of a theme asset, executable.
fn theme_stem_of(name: &str) -> (r: String)
    ensures
        r@ == theme_stem(name@),
{
    proof {
        reveal_strlit(".css");
    }
    match crate::strutil::find_from(name, ".css", 0) {
        Option::Some(j) => {
            proof {
                lemma_find_at_some(name@, ".css"@, 0);
            }
            crate::strutil::substr(name, 0, j)
        },
        Option::None => name.to_owned(),
    }
}

/// Flat per-request settings, with subscription and filter lists.
pub struct Preferences {
    pub available_themes: Vec<String>,
    pub theme: String,
    pub front_page: String,
    pub layout: String,
    pub wide: String,
    pub show_nsfw: String,
    pub blur_nsfw: String,
    pub hide_hls_notification: String,
    pub use_hls: String,
    pub autoplay_videos: String,
    pub fixed_navbar: String,
    pub disable_visit_reddit_confirmation: String,
    pub comment_sort: String,
    pub post_sort: String,
    pub subscriptions: Vec<String>,
    pub filters: Vec<String>,
    pub hide_awards: String,
    pub hide_score: String,
}

/// A split list matches the entries of a joined setting.
pub open spec fn split_matches(v: Seq<String>, joined: Seq<char>) -> bool {
    v.len() == split_plus(joined).len() && forall|i: int|
        0 <= i < v.len() ==> (#[trigger] v[i])@ == split_plus(joined)[i]
}

impl Preferences {
    /// Builds preferences from resolved name/value settings pairs and
    /// the embedded theme asset names: the default theme always leads
    /// the available list, followed by the assets' display names; each
    /// field reads its setting, the navigation bar defaults to `on`,
    /// and the subscription and filter lists are split from their
    /// joined settings.
    pub fn new(settings: &Vec<(String, String)>, theme_assets: Vec<String>) -> (r: Preferences)
        ensures
            r.available_themes@.len() == theme_assets@.len() + 1,
            r.available_themes@[0]@ == "system"@,
            forall|i: int|
                0 <= i < theme_assets@.len() ==> (#[trigger] r.available_themes@[i + 1])@
                    == theme_stem(theme_assets@[i]@),
            r.theme@ == lookup_setting(settings@, "theme"@, 0),
            r.front_page@ == lookup_setting(settings@, "front_page"@, 0),
            r.layout@ == lookup_setting(settings@, "layout"@, 0),
            r.wide@ == lookup_setting(settings@, "wide"@, 0),
            r.show_nsfw@ == lookup_setting(settings@, "show_nsfw"@, 0),
            r.blur_nsfw@ == lookup_setting(settings@, "blur_nsfw"@, 0),
            r.use_hls@ == lookup_setting(settings@, "use_hls"@, 0),
            r.hide_hls_notification@ == lookup_setting(settings@, "hide_hls_notification"@, 0),
            r.autoplay_videos@ == lookup_setting(settings@, "autoplay_videos"@, 0),
            r.fixed_navbar@ == setting_or(settings@, "fixed_navbar"@, "on"@),
            r.disable_visit_reddit_confirmation@ == lookup_setting(
                settings@,
                "disable_visit_reddit_confirmation"@,
                0,
            ),
            r.comment_sort@ == lookup_setting(settings@, "comment_sort"@, 0),
            r.post_sort@ == lookup_setting(settings@, "post_sort"@, 0),
            split_matches(r.subscriptions@, lookup_setting(settings@, "subscriptions"@, 0)),
            split_matches(r.filters@, lookup_setting(settings@, "filters"@, 0)),
            r.hide_awards@ == lookup_setting(settings@, "hide_awards"@, 0),
            r.hide_score@ == lookup_setting(settings@, "hide_score"@, 0),
    {
        let subs = setting_of(settings, "subscriptions");
        let filts = setting_of(settings, "filters");
        let mut available_themes: Vec<String> = Vec::new();
        available_themes.push(String::from_str("system"));
        proof {
            reveal_strlit("system");
        }
        let n = theme_assets.len();
        let mut k: usize = 0;
        while k < n
            invariant
                n == theme_assets@.len(),
                k <= n,
                available_themes@.len() == k + 1,
                available_themes@[0]@ == "system"@,
                forall|i: int|
                    0 <= i < k ==> (#[trigger] available_themes@[i + 1])@ == theme_stem(
                        theme_assets@[i]@,
                    ),
            decreases n - k,
        {
            let stem = theme_stem_of(theme_assets[k].as_str());
            available_themes.push(stem);
            k += 1;
        }
        Preferences {
            available_themes,
            theme: setting_of(settings, "theme"),
            front_page: setting_of(settings, "front_page"),
            layout: setting_of(settings, "layout"),
            wide: setting_of(settings, "wide"),
            show_nsfw: setting_of(settings, "show_nsfw"),
            blur_nsfw: setting_of(settings, "blur_nsfw"),
            use_hls: setting_of(settings, "use_hls"),
            hide_hls_notification: setting_of(settings, "hide_hls_notification"),
            autoplay_videos: setting_of(settings, "autoplay_videos"),
            fixed_navbar: setting_or_default(
                setting_of(settings, "fixed_navbar"),
                String::from_str("on"),
            ),
            disable_visit_reddit_confirmation: setting_of(
                settings,
                "disable_visit_reddit_confirmation",
            ),
            comment_sort: setting_of(settings, "comment_sort"),
            post_sort: setting_of(settings, "post_sort"),
            subscriptions: get_filters(subs.as_str()),
            filters: get_filters(filts.as_str()),
            hide_awards: setting_of(settings, "hide_awards"),
            hide_score: setting_of(settings, "hide_score"),
        }
    }
}

impl Default for Preferences {
    /// The zero preferences: every setting empty.
    fn default() -> (r: Preferences)
        ensures
            r.available_themes@.len() == 0,
            r.theme@.len() == 0,
            r.subscriptions@.len() == 0,
            r.filters@.len() == 0,
    {
        Preferences {
            available_themes: Vec::new(),
            theme: String::new(),
            front_page: String::new(),
            layout: String::new(),
            wide: String::new(),
            show_nsfw: String::new(),
            blur_nsfw: String::new(),
            hide_hls_notification: String::new(),
            use_hls: String::new(),
            autoplay_videos: String::new(),
            fixed_navbar: String::new(),
            disable_visit_reddit_confirmation: String::new(),
            comment_sort: String::new(),
            post_sort: String::new(),
            subscriptions: Vec::new(),
            filters: Vec::new(),
            hide_awards: String::new(),
            hide_score: String::new(),
        }
    }
}

/// The instance runs in safe-for-work-only mode: the configured flag
/// reads exactly `on`.
pub fn sfw_only(value: &Option<String>) -> (r: bool)
    ensures
        r == (match *value {
            Option::Some(v) => v@ == "on"@,
            Option::None => false,
        }),
{
    match value {
        Option::Some(v) => crate::strutil::str_eq(v.as_str(), "on"),
        Option::None => false,
    }
}

/// A request must see the adult-content landing page: the viewer has
/// not switched adult content on, or the instance is safe-for-work
/// only; and the bypass marker in the URL helps only off such an
/// instance.
pub fn should_be_nsfw_gated(show_nsfw: &str, sfw_instance: bool, req_url: &str) -> (r: bool)
    ensures
        r == ((show_nsfw@ != "on"@ || sfw_instance) && !(!sfw_instance && find_at(
            req_url@,
            "&bypass_nsfw_landing"@,
            0,
        ) is Some)),
{
    let gate_nsfw = !crate::strutil::str_eq(show_nsfw, "on") || sfw_instance;
    let bypass_gate = !sfw_instance && crate::strutil::contains_str(
        req_url,
        "&bypass_nsfw_landing",
    );
    gate_nsfw && !bypass_gate
}

/// The resource a landing page describes, from the request's route
/// parameters: a named user wins, then a post id, then the community.
pub fn nsfw_landing_resource(name: &str, id: &str, sub: &str) -> (r: (ResourceType, String))
    ensures
        name@.len() > 0 ==> r.0 == ResourceType::User && r.1@ == name@,
        name@.len() == 0 && id@.len() > 0 ==> r.0 == ResourceType::Post && r.1@ == id@,
        name@.len() == 0 && id@.len() == 0 ==> r.0 == ResourceType::Subreddit && r.1@ == sub@,
{
    if name.unicode_len() > 0 {
        (ResourceType::User, name.to_owned())
    } else if id.unicode_len() > 0 {
        (ResourceType::Post, id.to_owned())
    } else {
        (ResourceType::Subreddit, sub.to_owned())
    }
}

/// Data of the generic error page.
pub struct ErrorTemplate {
    pub msg: String,
    pub prefs: Preferences,
    pub url: String,
}

/// Data of the landing page shown for adult content when the viewer
/// has not switched it on.
pub struct NSFWLandingTemplate {
    /// The community or user name, or the post id.
    pub res: String,
    /// What kind of page the identifier names.
    pub res_type: ResourceType,
    pub prefs: Preferences,
    pub url: String,
}

} // verus!

//! Domain records built defensively from upstream JSON: flair, awards
//! and polls. A missing or mistyped field yields the field's zero
//! value, never a failure of the whole record.

use vstd::prelude::*;

use crate::json::{
    JsonValue, spec_get, jstr, jstr_or_empty, ju64, jmicros, jis_object, str_or_empty, jsub, jat,
};
use crate::numfmt::spec_parse_u64;
use crate::urls::{spec_format_url, url_domain_of};
use crate::timefmt::{spec_rel_time, spec_abs_time};

verus! {

/// Kind of page a resource identifier names.
#[derive(Debug, PartialEq, Eq, Structural)]
pub enum ResourceType {
    Subreddit,
    User,
    Post,
}

/// One part of a flair: emoji or text.
#[derive(Clone)]
pub struct FlairPart {
    pub flair_part_type: String,
    pub value: String,
}

/// A flair: its parts in render order, display text and colors.
pub struct Flair {
    pub flair_parts: Vec<FlairPart>,
    pub text: String,
    pub background_color: String,
    pub foreground_color: String,
}

/// A post or comment author with flair and moderator marker.
pub struct Author {
    pub name: String,
    pub flair: Flair,
    pub distinguished: String,
}

/// Post flags.
pub struct Flags {
    pub nsfw: bool,
    pub stickied: bool,
}

/// String member of a flair part, defaulting to empty.
pub open spec fn part_field(part: JsonValue, name: Seq<char>) -> Seq<char> {
    jstr_or_empty(spec_get(part, name))
}

/// Rendered value of a flair part: its text for a text part, the
/// canonicalized emoji URL for an emoji part, empty otherwise.
pub open spec fn flair_part_value(part: JsonValue) -> Seq<char> {
    let e = part_field(part, "e"@);
    if e == "text"@ {
        part_field(part, "t"@)
    } else if e == "emoji"@ {
        let u = part_field(part, "u"@);
        spec_format_url(u, url_domain_of(u))
    } else {
        Seq::<char>::empty()
    }
}

/// The parts of a flair, as kind-and-value pairs, from its declared
/// kind, rich parts and plain text.
pub open spec fn flair_parts_of(
    ftype: Seq<char>,
    rich: Option<Seq<JsonValue>>,
    text: Option<Seq<char>>,
) -> Seq<(Seq<char>, Seq<char>)> {
    if ftype == "richtext"@ {
        match rich {
            Option::Some(rs) => Seq::new(rs.len(), |i: int| (part_field(rs[i], "e"@), flair_part_value(rs[i]))),
            Option::None => Seq::empty(),
        }
    } else if ftype == "text"@ {
        match text {
            Option::Some(t) => seq![("text"@, t)],
            Option::None => Seq::empty(),
        }
    } else {
        Seq::empty()
    }
}

/// The built parts carry exactly the given kind-and-value pairs.
pub open spec fn flair_parts_match(v: Seq<FlairPart>, m: Seq<(Seq<char>, Seq<char>)>) -> bool {
    v.len() == m.len() && forall|i: int|
        0 <= i < m.len() ==> (#[trigger] v[i]).flair_part_type@ == m[i].0 && v[i].value@ == m[i].1
}

impl FlairPart {
    /// Builds the parts of a flair from its declared kind: each rich
    /// part carries its kind and rendered value; a plain text flair is
    /// one text part; anything else is no flair at all.
    pub fn parse(flair_type: &str, rich_flair: Option<&Vec<JsonValue>>, text_flair: Option<&str>)
        -> (r: Vec<FlairPart>)
        ensures
            flair_parts_match(
                r@,
                flair_parts_of(
                    flair_type@,
                    match rich_flair {
                        Option::Some(v) => Some(v@),
                        Option::None => None,
                    },
                    match text_flair {
                        Option::Some(t) => Some(t@),
                        Option::None => None,
                    },
                ),
            ),
    {
        proof {
            reveal_strlit("richtext");
            reveal_strlit("text");
        }
        if crate::strutil::str_eq(flair_type, "richtext") {
            proof {
                assert("richtext"@.len() == 8);
                assert("text"@.len() == 4);
                assert(flair_type@ != "text"@);
            }
            match rich_flair {
                Option::Some(rich) => {
                    let n = rich.len();
                    let mut out: Vec<FlairPart> = Vec::new();
                    let mut i: usize = 0;
                    while i < n
                        invariant
                            n == rich@.len(),
                            i <= n,
                            out@.len() == i,
                            forall|j: int|
                                0 <= j < i ==> (#[trigger] out@[j]).flair_part_type@ == part_field(
                                    rich@[j],
                                    "e"@,
                                ) && out@[j].value@ == flair_part_value(rich@[j]),
                        decreases n - i,
                    {
                        let part = &rich[i];
                        let e = str_or_empty(part.get("e"));
                        let value = if crate::strutil::str_eq(e.as_str(), "text") {
                            str_or_empty(part.get("t"))
                        } else if crate::strutil::str_eq(e.as_str(), "emoji") {
                            let u = str_or_empty(part.get("u"));
                            crate::urls::format_url(u.as_str())
                        } else {
                            String::new()
                        };
                        out.push(FlairPart { flair_part_type: e, value });
                        i += 1;
                    }
                    out
                },
                Option::None => Vec::new(),
            }
        } else if crate::strutil::str_eq(flair_type, "text") {
            match text_flair {
                Option::Some(text) => {
                    let mut out: Vec<FlairPart> = Vec::new();
                    out.push(
                        FlairPart { flair_part_type: String::from_str("text"), value: text.to_owned() },
                    );
                    proof {
                        assert(out@.len() == 1);
                        assert(out@[0].flair_part_type@ == "text"@);
                        assert(out@[0].value@ == text@);
                    }
                    out
                },
                Option::None => Vec::new(),
            }
        } else {
            Vec::new()
        }
    }
}

/// An award with its count; the count defaults to one when the source
/// field is not a plain in-range integer.
#[derive(Clone)]
pub struct Award {
    pub name: String,
    pub icon_url: String,
    pub description: String,
    pub count: i64,
}

impl Default for Award {
    /// The zero award.
    fn default() -> (r: Award)
        ensures
            r.name@ == Seq::<char>::empty(),
            r.icon_url@ == Seq::<char>::empty(),
            r.description@ == Seq::<char>::empty(),
            r.count == 0,
    {
        Award {
            name: String::new(),
            icon_url: String::new(),
            description: String::new(),
            count: 0,
        }
    }
}

/// The awards of a post or comment, in source order.
pub struct Awards(pub Vec<Award>);

/// Name of an award entry.
pub open spec fn award_name(item: JsonValue) -> Seq<char> {
    jstr_or_empty(spec_get(item, "name"@))
}

/// Canonicalized icon URL of an award entry: its first resized icon.
pub open spec fn award_icon(item: JsonValue) -> Seq<char> {
    let raw = jstr_or_empty(jsub(jat(jsub(Some(item), "resized_icons"@), 0), "url"@));
    spec_format_url(raw, url_domain_of(raw))
}

/// Description of an award entry.
pub open spec fn award_description(item: JsonValue) -> Seq<char> {
    jstr_or_empty(spec_get(item, "description"@))
}

/// Count of an award entry: the count member when it is a
/// non-negative integer that fits a signed 64-bit value, one
/// otherwise.
pub open spec fn award_count(item: JsonValue) -> i64 {
    match spec_get(item, "count"@) {
        Option::Some(JsonValue::IntNum(n)) => if n >= 0 {
            n
        } else {
            1
        },
        Option::Some(JsonValue::UIntNum(n)) => if n <= i64::MAX as u64 {
            n as i64
        } else {
            1
        },
        _ => 1,
    }
}

/// The award list a node determines: one record per array entry, in
/// order; anything but an array has none.
pub open spec fn awards_match(a: Seq<Award>, items: Option<JsonValue>) -> bool {
    match items {
        Option::Some(JsonValue::Arr(list)) => a.len() == list@.len() && forall|i: int|
            0 <= i < list@.len() ==> (#[trigger] a[i]).name@ == award_name(list@[i])
                && a[i].icon_url@ == award_icon(list@[i]) && a[i].description@
                == award_description(list@[i]) && a[i].count == award_count(list@[i]),
        _ => a.len() == 0,
    }
}

impl Awards {
    /// Builds the award list: one award per array entry, in order;
    /// anything but an array yields no awards.
    pub fn parse(items: &JsonValue) -> (r: Awards)
        ensures
            awards_match(r.0@, Some(*items)),
    {
        match items {
            JsonValue::Arr(list) => {
                let n = list.len();
                let mut out: Vec<Award> = Vec::new();
                let mut i: usize = 0;
                while i < n
                    invariant
                        n == list@.len(),
                        i <= n,
                        out@.len() == i,
                        forall|j: int|
                            0 <= j < i ==> (#[trigger] out@[j]).name@ == award_name(list@[j])
                                && out@[j].icon_url@ == award_icon(list@[j]) && out@[j].description@
                                == award_description(list@[j]) && out@[j].count == award_count(
                                list@[j],
                            ),
                    decreases n - i,
                {
                    let item = &list[i];
                    let raw_icon = str_or_empty(crate::json::member(
                        crate::json::element(item.get("resized_icons"), 0),
                        "url",
                    ));
                    let count: i64 = match item.get("count") {
                        Option::Some(JsonValue::IntNum(c)) => if *c >= 0 {
                            *c
                        } else {
                            1
                        },
                        Option::Some(JsonValue::UIntNum(c)) => if *c <= 0x7fffffffffffffff {
                            *c as i64
                        } else {
                            1
                        },
                        _ => 1,
                    };
                    out.push(
                        Award {
                            name: str_or_empty(item.get("name")),
                            icon_url: crate::urls::format_url(raw_icon.as_str()),
                            description: str_or_empty(item.get("description")),
                            count,
                        },
                    );
                    i += 1;
                }
                Awards(out)
            },
            _ => Awards(Vec::new()),
        }
    }
}

/// One option of a poll; the vote count is hidden while voting runs.
pub struct PollOption {
    pub id: u64,
    pub text: String,
    pub vote_count: Option<u64>,
}

/// The parsed form of one poll option entry: present only when the id
/// is a string holding an unsigned integer and the text is a string.
pub open spec fn poll_option_of(item: JsonValue) -> Option<(u64, Seq<char>, Option<u64>)> {
    match jstr(spec_get(item, "id"@)) {
        Option::Some(ids) => match spec_parse_u64(ids) {
            Option::Some(id) => match jstr(spec_get(item, "text"@)) {
                Option::Some(text) => Some((id, text, ju64(spec_get(item, "vote_count"@)))),
                Option::None => None,
            },
            Option::None => None,
        },
        Option::None => None,
    }
}

/// The parsed options of a poll: entries that do not parse are
/// dropped, order is kept.
pub open spec fn poll_options_of(items: Seq<JsonValue>) -> Seq<(u64, Seq<char>, Option<u64>)>
    decreases items.len(),
{
    if items.len() == 0 {
        Seq::empty()
    } else {
        poll_options_of(items.drop_last()) + (match poll_option_of(items.last()) {
            Option::Some(o) => seq![o],
            Option::None => Seq::empty(),
        })
    }
}

impl PollOption {
    /// Builds the options of a poll from its options array: present
    /// exactly when the node is an array; entries that do not parse
    /// are dropped.
    pub fn parse(options: &JsonValue) -> (r: Option<Vec<PollOption>>)
        ensures
            (r is Some) == (*options matches JsonValue::Arr(_)),
            match (r, *options) {
                (Option::Some(v), JsonValue::Arr(list)) => {
                    let m = poll_options_of(list@);
                    v@.len() == m.len() && forall|i: int|
                        0 <= i < m.len() ==> (#[trigger] v@[i]).id == m[i].0 && v@[i].text@
                            == m[i].1 && v@[i].vote_count == m[i].2
                },
                _ => true,
            },
    {
        match options {
            JsonValue::Arr(list) => {
                let n = list.len();
                let mut out: Vec<PollOption> = Vec::new();
                let mut i: usize = 0;
                while i < n
                    invariant
                        n == list@.len(),
                        i <= n,
                        ({
                            let m = poll_options_of(list@.take(i as int));
                            out@.len() == m.len() && forall|j: int|
                                0 <= j < m.len() ==> (#[trigger] out@[j]).id == m[j].0
                                    && out@[j].text@ == m[j].1 && out@[j].vote_count == m[j].2
                        }),
                    decreases n - i,
                {
                    let item = &list[i];
                    proof {
                        assert(list@.take(i + 1).drop_last() =~= list@.take(i as int));
                        assert(list@.take(i + 1).last() == list@[i as int]);
                    }
                    match item.get("id") {
                        Option::Some(idv) => match idv.as_str() {
                            Option::Some(ids) => match crate::numfmt::parse_u64(ids) {
                                Option::Some(id) => match item.get("text") {
                                    Option::Some(tv) => match tv.as_str() {
                                        Option::Some(text) => {
                                            let vote_count = match item.get("vote_count") {
                                                Option::Some(vc) => vc.as_u64(),
                                                Option::None => None,
                                            };
                                            out.push(
                                                PollOption {
                                                    id,
                                                    text: text.to_owned(),
                                                    vote_count,
                                                },
                                            );
                                        },
                                        Option::None => {},
                                    },
                                    Option::None => {},
                                },
                                Option::None => {},
                            },
                            Option::None => {},
                        },
                        Option::None => {},
                    }
                    i += 1;
                }
                proof {
                    assert(list@.take(n as int) =~= list@);
                }
                Some(out)
            },
            _ => None,
        }
    }
}

/// A poll: its options, the end of voting as a rendered time pair, and
/// the total number of votes cast.
pub struct Poll {
    pub poll_options: Vec<PollOption>,
    pub voting_end_timestamp: (String, String),
    pub total_vote_count: u64,
}

/// `a / b` rounded to the nearest integer, half away from zero
/// (`b > 0`).
pub open spec fn round_div_away(a: int, b: int) -> int
    recommends
        b > 0,
{
    if a >= 0 {
        if 2 * (a % b) >= b {
            a / b + 1
        } else {
            a / b
        }
    } else {
        if 2 * ((-a) % b) >= b {
            -((-a) / b + 1)
        } else {
            -((-a) / b)
        }
    }
}

/// The voting-end second of a poll: its end timestamp is given in
/// milliseconds, so the value in millionths is scaled down by a
/// billion and rounded; far out-of-range values saturate, and are
/// later clamped to the epoch by the renderer either way.
pub open spec fn voting_end_secs(micros: int) -> int {
    let s = round_div_away(micros, 1000000000);
    if s > i64::MAX {
        i64::MAX as int
    } else if s < i64::MIN {
        i64::MIN as int
    } else {
        s
    }
}

/// Scales a millionths value down to seconds-from-milliseconds,
/// rounding half away from zero and saturating to the 64-bit range.
fn micros_to_end_secs(micros: i128) -> (r: i64)
    ensures
        r as int == voting_end_secs(micros as int),
{
    let neg = micros < 0;
    let mag: u128 = if neg {
        ((-(micros + 1)) as u128) + 1
    } else {
        micros as u128
    };
    proof {
        assert(mag as int == (if micros < 0 {
            -(micros as int)
        } else {
            micros as int
        }));
    }
    let q = mag / 1000000000;
    let rm = mag % 1000000000;
    let rounded: u128 = if 2 * rm >= 1000000000 {
        q + 1
    } else {
        q
    };
    if neg {
        if rounded > 0x8000000000000000u128 {
            i64::MIN
        } else {
            (-(rounded as i128)) as i64
        }
    } else {
        if rounded > 0x7fffffffffffffffu128 {
            i64::MAX
        } else {
            rounded as u64 as i64
        }
    }
}

/// A poll can be built from the node: it is an object whose total vote
/// count is an unsigned integer, whose voting end timestamp is a
/// number, and whose options member is an array.
pub open spec fn poll_ok(pd: Option<JsonValue>) -> bool {
    match pd {
        Option::Some(p) => jis_object(Some(p)) && ju64(spec_get(p, "total_vote_count"@)) is Some
            && jmicros(spec_get(p, "voting_end_timestamp"@)) is Some && spec_get(p, "options"@)
            matches Option::Some(JsonValue::Arr(_)),
        Option::None => false,
    }
}

/// The poll fields a node determines, against a clock reading.
pub open spec fn poll_matches(p: Poll, pd: JsonValue, now: int) -> bool {
    &&& Option::Some(p.total_vote_count) == ju64(spec_get(pd, "total_vote_count"@))
    &&& {
        let secs = voting_end_secs(jmicros(spec_get(pd, "voting_end_timestamp"@))->Some_0);
        p.voting_end_timestamp.0@ == spec_rel_time(secs, now) && p.voting_end_timestamp.1@
            == spec_abs_time(secs)
    }
    &&& match spec_get(pd, "options"@) {
        Option::Some(JsonValue::Arr(list)) => {
            let m = poll_options_of(list@);
            p.poll_options@.len() == m.len() && forall|i: int|
                0 <= i < m.len() ==> (#[trigger] p.poll_options@[i]).id == m[i].0
                    && p.poll_options@[i].text@ == m[i].1 && p.poll_options@[i].vote_count == m[i].2
        },
        _ => false,
    }
}

/// The UNIX second a seconds-valued number denotes: the value in
/// millionths scaled down by a million and rounded; far out-of-range
/// values saturate, and are later clamped to the epoch by the renderer
/// either way.
pub open spec fn unix_secs(micros: int) -> int {
    let s = round_div_away(micros, 1000000);
    if s > i64::MAX {
        i64::MAX as int
    } else if s < i64::MIN {
        i64::MIN as int
    } else {
        s
    }
}

/// Scales a millionths value down to whole units, rounding half away
/// from zero and saturating to the 64-bit range.
pub fn micros_to_unix_secs(micros: i128) -> (r: i64)
    ensures
        r as int == unix_secs(micros as int),
{
    let neg = micros < 0;
    let mag: u128 = if neg {
        ((-(micros + 1)) as u128) + 1
    } else {
        micros as u128
    };
    proof {
        assert(mag as int == (if micros < 0 {
            -(micros as int)
        } else {
            micros as int
        }));
    }
    let q = mag / 1000000;
    let rm = mag % 1000000;
    let rounded: u128 = if 2 * rm >= 1000000 {
        q + 1
    } else {
        q
    };
    if neg {
        if rounded > 0x8000000000000000u128 {
            i64::MIN
        } else {
            (-(rounded as i128)) as i64
        }
    } else {
        if rounded > 0x7fffffffffffffffu128 {
            i64::MAX
        } else {
            rounded as u64 as i64
        }
    }
}

/// The truncated percentage a ratio-valued number denotes: the value
/// in millionths scaled by one hundred, truncated toward zero,
/// saturated to the 64-bit range.
pub open spec fn trunc_percent(micros: int) -> int {
    let t = if micros >= 0 {
        micros / 10000
    } else {
        -((-micros) / 10000)
    };
    if t > i64::MAX {
        i64::MAX as int
    } else if t < i64::MIN {
        i64::MIN as int
    } else {
        t
    }
}

/// Scales a millionths value to a truncated percentage, saturating to
/// the 64-bit range.
pub fn micros_to_percent(micros: i128) -> (r: i64)
    ensures
        r as int == trunc_percent(micros as int),
{
    let neg = micros < 0;
    let mag: u128 = if neg {
        ((-(micros + 1)) as u128) + 1
    } else {
        micros as u128
    };
    proof {
        assert(mag as int == (if micros < 0 {
            -(micros as int)
        } else {
            micros as int
        }));
    }
    let q = mag / 10000;
    if neg {
        if q > 0x8000000000000000u128 {
            i64::MIN
        } else {
            (-(q as i128)) as i64
        }
    } else {
        if q > 0x7fffffffffffffffu128 {
            i64::MAX
        } else {
            q as u64 as i64
        }
    }
}

impl Poll {
    /// Builds a poll against an explicit reading of the clock: present
    /// exactly when the node is an object whose total vote count is an
    /// unsigned integer, whose voting end timestamp is a number, and
    /// whose options member is an array.
    pub fn parse(poll_data: &JsonValue, now: i64) -> (r: Option<Poll>)
        ensures
            (r is Some) == poll_ok(Some(*poll_data)),
            match r {
                Option::Some(p) => poll_matches(p, *poll_data, now as int),
                Option::None => true,
            },
    {
        if !poll_data.is_object() {
            return None;
        }
        let total_vote_count = match crate::json::member(Some(poll_data), "total_vote_count") {
            Option::Some(v) => match v.as_u64() {
                Option::Some(t) => t,
                Option::None => {
                    return None;
                },
            },
            Option::None => {
                return None;
            },
        };
        let micros = match crate::json::member(Some(poll_data), "voting_end_timestamp") {
            Option::Some(v) => match v.as_micros() {
                Option::Some(m) => m,
                Option::None => {
                    return None;
                },
            },
            Option::None => {
                return None;
            },
        };
        let secs = micros_to_end_secs(micros);
        let voting_end_timestamp = crate::timefmt::time_with_now(secs, now);
        let poll_options = match crate::json::member(Some(poll_data), "options") {
            Option::Some(v) => match PollOption::parse(v) {
                Option::Some(o) => o,
                Option::None => {
                    return None;
                },
            },
            Option::None => {
                return None;
            },
        };
        Some(Poll { poll_options, voting_end_timestamp, total_vote_count })
    }

    /// Greatest visible vote count over the options.
    pub open spec fn spec_most_votes(options: Seq<PollOption>) -> u64
        decreases options.len(),
    {
        if options.len() == 0 {
            0u64
        } else {
            let rest = Self::spec_most_votes(options.drop_last());
            match options.last().vote_count {
                Option::Some(v) => if v > rest {
                    v
                } else {
                    rest
                },
                Option::None => rest,
            }
        }
    }

    /// The vote count of the best-scoring option: the maximum over the
    /// options' visible vote counts, zero when none is visible.
    pub fn most_votes(&self) -> (r: u64)
        ensures
            r == Self::spec_most_votes(self.poll_options@),
    {
        let n = self.poll_options.len();
        let mut best: u64 = 0;
        let mut i: usize = 0;
        while i < n
            invariant
                n == self.poll_options@.len(),
                i <= n,
                best == Self::spec_most_votes(self.poll_options@.take(i as int)),
            decreases n - i,
        {
            proof {
                assert(self.poll_options@.take(i + 1).drop_last() =~= self.poll_options@.take(
                    i as int,
                ));
                assert(self.poll_options@.take(i + 1).last() == self.poll_options@[i as int]);
            }
            match self.poll_options[i].vote_count {
                Option::Some(v) => {
                    if v > best {
                        best = v;
                    }
                },
                Option::None => {},
            }
            i += 1;
        }
        proof {
            assert(self.poll_options@.take(n as int) =~= self.poll_options@);
        }
        best
    }
}

/// Metadata of a user page.
pub struct User {
    pub name: String,
    pub title: String,
    pub icon: String,
    pub karma: i64,
    pub created: String,
    pub banner: String,
    pub description: String,
    pub nsfw: bool,
}

impl Default for User {
    /// The zero user.
    fn default() -> (r: User)
        ensures
            r.name@ == Seq::<char>::empty(),
            r.title@ == Seq::<char>::empty(),
            r.icon@ == Seq::<char>::empty(),
            r.karma == 0,
            r.created@ == Seq::<char>::empty(),
            r.banner@ == Seq::<char>::empty(),
            r.description@ == Seq::<char>::empty(),
            !r.nsfw,
    {
        User {
            name: String::new(),
            title: String::new(),
            icon: String::new(),
            karma: 0,
            created: String::new(),
            banner: String::new(),
            description: String::new(),
            nsfw: false,
        }
    }
}

/// Metadata of a community.
pub struct Subreddit {
    pub name: String,
    pub title: String,
    pub description: String,
    pub info: String,
    pub icon: String,
    pub members: (String, String),
    pub active: (String, String),
    pub wiki: bool,
    pub nsfw: bool,
}

impl Default for Subreddit {
    /// The zero community.
    fn default() -> (r: Subreddit)
        ensures
            r.name@ == Seq::<char>::empty(),
            r.title@ == Seq::<char>::empty(),
            r.description@ == Seq::<char>::empty(),
            r.info@ == Seq::<char>::empty(),
            r.icon@ == Seq::<char>::empty(),
            r.members.0@ == Seq::<char>::empty() && r.members.1@ == Seq::<char>::empty(),
            r.active.0@ == Seq::<char>::empty() && r.active.1@ == Seq::<char>::empty(),
            !r.wiki,
            !r.nsfw,
    {
        Subreddit {
            name: String::new(),
            title: String::new(),
            description: String::new(),
            info: String::new(),
            icon: String::new(),
            members: (String::new(), String::new()),
            active: (String::new(), String::new()),
            wiki: false,
            nsfw: false,
        }
    }
}

/// Query parameters used by listing pages.
pub struct Params {
    pub t: Option<String>,
    pub q: Option<String>,
    pub sort: Option<String>,
    pub after: Option<String>,
    pub before: Option<String>,
}

} // verus!

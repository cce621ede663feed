//! Media resolution: determines a post's media kind and normalized
//! media record from its raw JSON, checking the known video-source
//! locations in strict priority order and canonicalizing every URL.

use vstd::prelude::*;

use crate::json::{
    JsonValue, spec_get, jstr_or_empty, jbool_or_false, ji64_or_zero, jis_string, jis_object,
    jeq_str, jsub, jat, deref_opt, member, element, str_or_empty, bool_or_false, i64_or_zero,
};

use crate::urls::canon_url;

verus! {

/// A normalized media record. Width and height default to zero when
/// unknown, which is expected for kinds without a preview source.
#[derive(Debug)]
pub struct Media {
    pub url: String,
    pub alt_url: String,
    pub width: i64,
    pub height: i64,
    pub poster: String,
}

/// One gallery item.
pub struct GalleryMedia {
    pub url: String,
    pub width: i64,
    pub height: i64,
    pub caption: String,
    pub outbound_url: String,
}

/// The video-preview member of a post.
pub open spec fn video_preview(data: JsonValue) -> Option<JsonValue> {
    jsub(jsub(Some(data), "preview"@), "reddit_video_preview"@)
}

/// The secure-media video member of a post.
pub open spec fn secure_video(data: JsonValue) -> Option<JsonValue> {
    jsub(jsub(Some(data), "secure_media"@), "reddit_video"@)
}

/// The video member of the first cross-post parent of a post.
pub open spec fn crosspost_video(data: JsonValue) -> Option<JsonValue> {
    jsub(jsub(jat(jsub(Some(data), "crosspost_parent_list"@), 0), "secure_media"@), "reddit_video"@)
}

/// The video source of a post: the first of the video preview, the
/// secure-media video and the cross-post parent video whose fallback
/// URL is a string.
pub open spec fn video_src(data: JsonValue) -> Option<JsonValue> {
    if jis_string(jsub(video_preview(data), "fallback_url"@)) {
        video_preview(data)
    } else if jis_string(jsub(secure_video(data), "fallback_url"@)) {
        secure_video(data)
    } else if jis_string(jsub(crosspost_video(data), "fallback_url"@)) {
        crosspost_video(data)
    } else {
        None
    }
}

/// The first preview image of a post.
pub open spec fn preview_img(data: JsonValue) -> Option<JsonValue> {
    jat(jsub(jsub(Some(data), "preview"@), "images"@), 0)
}

/// The mp4 variant of the first preview image.
pub open spec fn mp4_variant(data: JsonValue) -> Option<JsonValue> {
    jsub(jsub(preview_img(data), "variants"@), "mp4"@)
}

/// The post hint names an image.
pub open spec fn hint_image(data: JsonValue) -> bool {
    jstr_or_empty(spec_get(data, "post_hint"@)) == "image"@
}

/// The post resolves as a gallery: no video source, no image hint, not
/// a self post, flagged as a gallery.
pub open spec fn gallery_case(data: JsonValue) -> bool {
    video_src(data) is None && !hint_image(data) && !jbool_or_false(spec_get(data, "is_self"@))
        && jbool_or_false(spec_get(data, "is_gallery"@))
}

/// The media kind of a post: video sources win (a gif when flagged),
/// then the image hint (a gif when an mp4 variant exists), then self,
/// gallery, the image host, and finally a plain link.
pub open spec fn spec_post_type(data: JsonValue) -> Seq<char> {
    match video_src(data) {
        Option::Some(v) => if jbool_or_false(jsub(Some(v), "is_gif"@)) {
            "gif"@
        } else {
            "video"@
        },
        Option::None => if hint_image(data) {
            if jis_object(mp4_variant(data)) {
                "gif"@
            } else {
                "image"@
            }
        } else if jbool_or_false(spec_get(data, "is_self"@)) {
            "self"@
        } else if jbool_or_false(spec_get(data, "is_gallery"@)) {
            "gallery"@
        } else if jbool_or_false(spec_get(data, "is_reddit_media_domain"@)) && jeq_str(
            spec_get(data, "domain"@),
            "i.redd.it"@,
        ) {
            "image"@
        } else {
            "link"@
        },
    }
}

/// The raw media URL of a post, before canonicalization, chosen by the
/// same priority order as the kind.
pub open spec fn media_url_raw(data: JsonValue) -> Seq<char> {
    match video_src(data) {
        Option::Some(v) => jstr_or_empty(jsub(Some(v), "fallback_url"@)),
        Option::None => if hint_image(data) {
            if jis_object(mp4_variant(data)) {
                jstr_or_empty(jsub(jsub(mp4_variant(data), "source"@), "url"@))
            } else if jeq_str(spec_get(data, "domain"@), "i.redd.it"@) {
                jstr_or_empty(spec_get(data, "url"@))
            } else {
                jstr_or_empty(jsub(jsub(preview_img(data), "source"@), "url"@))
            }
        } else if jbool_or_false(spec_get(data, "is_self"@)) {
            jstr_or_empty(spec_get(data, "permalink"@))
        } else {
            jstr_or_empty(spec_get(data, "url"@))
        },
    }
}

/// The canonical alternate URL of a post: the HLS playlist of its
/// video source; empty without one.
pub open spec fn spec_alt_url(data: JsonValue) -> Seq<char> {
    match video_src(data) {
        Option::Some(v) => canon_url(jstr_or_empty(jsub(Some(v), "hls_url"@))),
        Option::None => Seq::<char>::empty(),
    }
}

/// The preview source of a post, carrying poster and dimensions.
pub open spec fn preview_source(data: JsonValue) -> Option<JsonValue> {
    jsub(preview_img(data), "source"@)
}

/// The raw URL of one gallery item: the GIF member of its metadata
/// entry when the entry's MIME type is `image/gif`, its generic URL
/// member otherwise.
pub open spec fn gallery_url_raw(item: JsonValue, metadata: Option<JsonValue>) -> Seq<char> {
    let entry = jsub(metadata, jstr_or_empty(spec_get(item, "media_id"@)));
    let image = jsub(entry, "s"@);
    if jeq_str(jsub(entry, "m"@), "image/gif"@) {
        jstr_or_empty(jsub(image, "gif"@))
    } else {
        jstr_or_empty(jsub(image, "u"@))
    }
}

/// The metadata entry's image member for one gallery item.
pub open spec fn gallery_image(item: JsonValue, metadata: Option<JsonValue>) -> Option<JsonValue> {
    jsub(jsub(metadata, jstr_or_empty(spec_get(item, "media_id"@))), "s"@)
}

/// The gallery items of a post, when it resolves as a gallery.
pub open spec fn gallery_items(data: JsonValue) -> Option<JsonValue> {
    jsub(jsub(Some(data), "gallery_data"@), "items"@)
}

/// The media record fields a post's data determines.
pub open spec fn media_matches(m: Media, data: JsonValue) -> bool {
    &&& m.url@ == canon_url(media_url_raw(data))
    &&& m.alt_url@ == spec_alt_url(data)
    &&& m.width == ji64_or_zero(jsub(preview_source(data), "width"@))
    &&& m.height == ji64_or_zero(jsub(preview_source(data), "height"@))
    &&& m.poster@ == canon_url(jstr_or_empty(jsub(preview_source(data), "url"@)))
}

/// One gallery record matches one item under the given metadata.
pub open spec fn gallery_item_matches(
    g: GalleryMedia,
    item: JsonValue,
    md: Option<JsonValue>,
) -> bool {
    &&& g.url@ == canon_url(gallery_url_raw(item, md))
    &&& g.width == ji64_or_zero(jsub(gallery_image(item, md), "x"@))
    &&& g.height == ji64_or_zero(jsub(gallery_image(item, md), "y"@))
    &&& g.caption@ == jstr_or_empty(spec_get(item, "caption"@))
    &&& g.outbound_url@ == jstr_or_empty(spec_get(item, "outbound_url"@))
}

/// The gallery records a post's data determines, for a gallery post.
pub open spec fn gallery_ok(g: Seq<GalleryMedia>, data: JsonValue) -> bool {
    match gallery_items(data) {
        Option::Some(JsonValue::Arr(list)) => g.len() == list@.len() && forall|i: int|
            0 <= i < list@.len() ==> gallery_item_matches(
                #[trigger] g[i],
                list@[i],
                spec_get(data, "media_metadata"@),
            ),
        _ => g.len() == 0,
    }
}

impl GalleryMedia {
    /// Builds the gallery from its item list and media metadata: one
    /// record per item, in order; anything but an array yields none.
    /// The GIF-specific URL member is selected exactly for items whose
    /// metadata entry is MIME-typed as a GIF.
    pub fn parse(items: Option<&JsonValue>, metadata: Option<&JsonValue>) -> (r: Vec<GalleryMedia>)
        ensures
            match deref_opt(items) {
                Option::Some(JsonValue::Arr(list)) => r@.len() == list@.len() && forall|i: int|
                    0 <= i < list@.len() ==> gallery_item_matches(
                        #[trigger] r@[i],
                        list@[i],
                        deref_opt(metadata),
                    ),
                _ => r@.len() == 0,
            },
    {
        match items {
            Option::Some(JsonValue::Arr(list)) => {
                let n = list.len();
                let mut out: Vec<GalleryMedia> = Vec::new();
                let mut i: usize = 0;
                while i < n
                    invariant
                        n == list@.len(),
                        i <= n,
                        out@.len() == i,
                        forall|j: int|
                            0 <= j < i ==> gallery_item_matches(
                                #[trigger] out@[j],
                                list@[j],
                                deref_opt(metadata),
                            ),
                    decreases n - i,
                {
                    let item = &list[i];
                    let media_id = str_or_empty(item.get("media_id"));
                    let entry = member(metadata, media_id.as_str());
                    let image = member(entry, "s");
                    let raw = if crate::json::bool_eq_str(member(entry, "m"), "image/gif") {
                        str_or_empty(member(image, "gif"))
                    } else {
                        str_or_empty(member(image, "u"))
                    };
                    out.push(
                        GalleryMedia {
                            url: crate::urls::format_url(raw.as_str()),
                            width: i64_or_zero(member(image, "x")),
                            height: i64_or_zero(member(image, "y")),
                            caption: str_or_empty(item.get("caption")),
                            outbound_url: str_or_empty(item.get("outbound_url")),
                        },
                    );
                    i += 1;
                }
                out
            },
            _ => Vec::new(),
        }
    }
}

impl Media {
    /// Resolves a post's media kind, normalized media record and
    /// gallery from the post's data object: video-source locations are
    /// tried in strict priority order, every captured URL is
    /// canonicalized, and dimensions default to zero when the preview
    /// source lacks them.
    pub fn parse(data: &JsonValue) -> (r: (String, Media, Vec<GalleryMedia>))
        ensures
            r.0@ == spec_post_type(*data),
            media_matches(r.1, *data),
            gallery_case(*data) ==> gallery_ok(r.2@, *data),
            !gallery_case(*data) ==> r.2@.len() == 0,
    {
        let dp = member(member(Some(data), "preview"), "reddit_video_preview");
        let sm = member(member(Some(data), "secure_media"), "reddit_video");
        let cp = member(
            member(element(member(Some(data), "crosspost_parent_list"), 0), "secure_media"),
            "reddit_video",
        );
        let src: Option<&JsonValue> = if is_string_opt(member(dp, "fallback_url")) {
            dp
        } else if is_string_opt(member(sm, "fallback_url")) {
            sm
        } else if is_string_opt(member(cp, "fallback_url")) {
            cp
        } else {
            None
        };
        let mut gallery: Vec<GalleryMedia> = Vec::new();
        let (post_type, url_raw, alt_raw): (&str, String, Option<String>) = match src {
            Option::Some(v) => {
                let is_gif = bool_or_false(v.get("is_gif"));
                (
                    if is_gif {
                        "gif"
                    } else {
                        "video"
                    },
                    str_or_empty(v.get("fallback_url")),
                    Some(str_or_empty(v.get("hls_url"))),
                )
            },
            Option::None => {
                let ph = str_or_empty(data.get("post_hint"));
                if crate::strutil::str_eq(ph.as_str(), "image") {
                    let pimg = element(member(member(Some(data), "preview"), "images"), 0);
                    let mp4 = member(member(pimg, "variants"), "mp4");
                    if crate::json::is_object_opt(mp4) {
                        ("gif", str_or_empty(member(member(mp4, "source"), "url")), None)
                    } else if crate::json::bool_eq_str(data.get("domain"), "i.redd.it") {
                        ("image", str_or_empty(data.get("url")), None)
                    } else {
                        ("image", str_or_empty(member(member(pimg, "source"), "url")), None)
                    }
                } else if bool_or_false(data.get("is_self")) {
                    ("self", str_or_empty(data.get("permalink")), None)
                } else if bool_or_false(data.get("is_gallery")) {
                    gallery = GalleryMedia::parse(
                        member(member(Some(data), "gallery_data"), "items"),
                        data.get("media_metadata"),
                    );
                    ("gallery", str_or_empty(data.get("url")), None)
                } else if bool_or_false(data.get("is_reddit_media_domain")) && crate::json::bool_eq_str(
                    data.get("domain"),
                    "i.redd.it",
                ) {
                    ("image", str_or_empty(data.get("url")), None)
                } else {
                    ("link", str_or_empty(data.get("url")), None)
                }
            },
        };
        let source = member(element(member(member(Some(data), "preview"), "images"), 0), "source");
        let alt_url = match alt_raw {
            Option::Some(a) => crate::urls::format_url(a.as_str()),
            Option::None => String::new(),
        };
        (
            post_type.to_owned(),
            Media {
                url: crate::urls::format_url(url_raw.as_str()),
                alt_url,
                width: i64_or_zero(member(source, "width")),
                height: i64_or_zero(member(source, "height")),
                poster: {
                    let p = str_or_empty(member(source, "url"));
                    crate::urls::format_url(p.as_str())
                },
            },
            gallery,
        )
    }
}

/// The value is a string, on an optional node.
pub fn is_string_opt(v: Option<&JsonValue>) -> (r: bool)
    ensures
        r == jis_string(deref_opt(v)),
{
    match v {
        Option::Some(x) => x.is_string(),
        Option::None => false,
    }
}

} // verus!

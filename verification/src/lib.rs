//! Normalization and URL-rewriting core for a privacy front-end.
//!
//! The library turns loosely-structured JSON documents from an upstream
//! content API into strict, presentation-ready records, while rewriting
//! every embedded media URL so that traffic is routed through a local
//! proxy instead of the original host.

mod entities;
mod json;
mod media;
mod numfmt;
mod post;
mod rewrite;
mod settings;
mod strutil;
mod timefmt;
mod urls;

pub use numfmt::format_num;
pub use numfmt::parse_u64;
pub use entities::{ResourceType, Flair, FlairPart, Author, Flags, Award, Awards, Poll, PollOption, User, Subreddit, Params};
pub use json::JsonValue;
pub use media::{Media, GalleryMedia};
pub use post::{Post, Comment, parse_post, filter_posts, val, DEFAULT_REMOVED_MIRROR};
pub use rewrite::rewrite_urls;
pub use timefmt::time;
pub use timefmt::time_with_now;
pub use settings::{Preferences, ErrorTemplate, NSFWLandingTemplate, sfw_only, should_be_nsfw_gated, get_filters, setting_of, setting_or_default, nsfw_landing_resource};
pub use urls::format_url;
pub use urls::param;

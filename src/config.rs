//! Settings of the tool and building of service URLs.

use vstd::prelude::*;
use vstd::string::*;
use crate::text::{append, chars_of, owned};

verus! {

/// The settings of the tool.
#[derive(Debug)]
pub struct Config {
    pub webhook: WebhookConfig,
}

/// The settings of the capture service and of rendering.
#[derive(Debug)]
pub struct WebhookConfig {
    pub base_url: String,
    pub default_count: u32,
    pub default_interval: u64,
    pub show_headers_by_default: bool,
    pub show_full_body_by_default: bool,
    pub body_preview_length: usize,
}

/// End of `s[..j]` once trailing `/` are dropped.
pub open spec fn slash_end(s: Seq<char>, j: int) -> int
    decreases j,
{
    if 0 < j <= s.len() && s[j - 1] == '/' {
        slash_end(s, j - 1)
    } else {
        j
    }
}

/// `s` without trailing `/`.
pub open spec fn without_trailing_slashes(s: Seq<char>) -> Seq<char> {
    s.subrange(0, slash_end(s, s.len() as int))
}

/// Each non-empty segment, preceded by `/`.
pub open spec fn joined_segments(segs: Seq<Seq<char>>) -> Seq<char>
    decreases segs.len(),
{
    if segs.len() == 0 {
        Seq::empty()
    } else {
        joined_segments(segs.drop_last()) + if segs.last().len() == 0 {
            Seq::empty()
        } else {
            seq!['/'] + segs.last()
        }
    }
}

/// The URL for `segs` under `base`, with a single `/` between parts.
pub open spec fn joined_url(base: Seq<char>, segs: Seq<Seq<char>>) -> Seq<char> {
    without_trailing_slashes(base) + joined_segments(segs)
}

/// The characters of each text of a slice.
pub open spec fn str_texts(v: Seq<&str>) -> Seq<Seq<char>> {
    v.map_values(|s: &str| s@)
}

impl Default for Config {
    /// The settings used when no configuration file exists.
    fn default() -> (r: Config)
        ensures
            r.webhook.default_count == 10,
            r.webhook.default_interval == 3,
            !r.webhook.show_headers_by_default,
            !r.webhook.show_full_body_by_default,
            r.webhook.body_preview_length == 80,
            r.webhook.base_url@ == "https://your-webhook-service.com"@,
    {
        Config {
            webhook: WebhookConfig {
                base_url: owned("https://your-webhook-service.com"),
                default_count: 10,
                default_interval: 3,
                show_headers_by_default: false,
                show_full_body_by_default: false,
                body_preview_length: 80,
            },
        }
    }
}

impl Config {
    /// `url` without trailing `/`.
    pub fn normalize_base_url(url: &str) -> (r: &str)
        ensures
            r@ == without_trailing_slashes(url@),
    {
        let v = chars_of(url);
        let mut j = v.len();
        while j > 0 && v[j - 1] == '/'
            invariant
                j <= v@.len(),
                v@ == url@,
                slash_end(v@, v@.len() as int) == slash_end(v@, j as int),
            decreases j,
        {
            j = j - 1;
        }
        url.substring_char(0, j)
    }

    /// The URL for `segments` under `base`: trailing `/` of the base are
    /// dropped, and each non-empty segment follows a single `/`.
    pub fn join_url_segments(base: &str, segments: &[&str]) -> (r: String)
        ensures
            r@ == joined_url(base@, str_texts(segments@)),
    {
        let mut url = owned(Self::normalize_base_url(base));
        let mut i: usize = 0;
        while i < segments.len()
            invariant
                i <= segments@.len(),
                url@ == joined_url(base@, str_texts(segments@.take(i as int))),
            decreases segments@.len() - i,
        {
            let segment = segments[i];
            let ghost before = url@;
            if !segment.is_empty() {
                append(&mut url, "/");
                append(&mut url, segment);
                proof {
                    reveal_strlit("/");
                    assert("/"@ =~= seq!['/']);
                }
            }
            proof {
                let t = str_texts(segments@.take(i + 1));
                assert(t.drop_last() =~= str_texts(segments@.take(i as int)));
                assert(t.last() == segment@);
            }
            i = i + 1;
            assert(url@ =~= joined_url(base@, str_texts(segments@.take(i as int))));
        }
        assert(segments@.take(i as int) =~= segments@);
        url
    }

    /// The base URL of the capture service.
    pub fn get_base_url(&self) -> (r: &str)
        ensures
            r@ == self.webhook.base_url@,
    {
        self.webhook.base_url.as_str()
    }

    /// How many characters a body preview keeps.
    pub fn get_body_preview_length(&self) -> (r: usize)
        ensures
            r == self.webhook.body_preview_length,
    {
        self.webhook.body_preview_length
    }
}

} // verus!

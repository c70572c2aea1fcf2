//! The field resolver: derives a fully populated episode record from one
//! feed item, or a descriptive failure.
//!
//! Each field is resolved through an ordered fallback chain, first
//! success wins, independently for the URL and the duration:
//! the URL comes from the item's enclosure, else from the vendor media
//! extension's `content` element (only under the exact `media:content`
//! tag); the duration comes from the enclosure's length string, else
//! from the media extension (a permanently disabled fallback), else from
//! the podcast-specific duration string. A missing field or an
//! unparseable number degrades to "absent"; only the final absence of a
//! required field is an error. Resolution is read-only.

use crate::duration::spec_parse_millis;
use crate::duration::Duration;
use crate::episode::Episode;
use crate::feed::assoc_get;
use crate::feed::spec_assoc;
use crate::feed::str_eq;
use crate::feed::FeedItem;
use vstd::prelude::*;

verus! {

/// A resolution failure: the offending item is identified by its title.
#[derive(Clone, Debug)]
pub enum ResolveError {
    /// No source yielded a stream URL.
    NoStreamUrl { title: Option<String> },
    /// No source yielded a duration.
    NoDuration { title: Option<String> },
}

/// The characters of an optional string.
pub open spec fn opt_str_view(o: Option<String>) -> Option<Seq<char>> {
    match o {
        Some(s) => Some(s@),
        None => None,
    }
}

/// URL the vendor media extension yields: the first `content` element of
/// the `media` namespace, only under the exact `media:content` tag name,
/// through its `url` attribute.
pub open spec fn spec_url_from_extensions(item: FeedItem) -> Option<Seq<char>> {
    match spec_assoc(item.extensions@, "media"@) {
        None => None,
        Some(groups) => match spec_assoc(groups@, "content"@) {
            None => None,
            Some(elems) => if elems@.len() == 0 {
                None
            } else if elems@[0].name@ == "media:content"@ {
                match spec_assoc(elems@[0].attrs@, "url"@) {
                    Some(u) => Some(u@),
                    None => None,
                }
            } else {
                None
            },
        },
    }
}

/// Duration the enclosure yields: its length string, when it parses.
pub open spec fn spec_enclosure_duration(item: FeedItem) -> Option<u64> {
    match item.enclosure {
        Some(enc) => spec_parse_millis(enc.length@),
        None => None,
    }
}

/// Duration the podcast-specific extension yields, when it parses.
pub open spec fn spec_itunes_duration(item: FeedItem) -> Option<u64> {
    match item.itunes_duration {
        Some(d) => spec_parse_millis(d@),
        None => None,
    }
}

/// The resolved stream URL: the enclosure's URL when an enclosure is
/// present, else the vendor media extension's URL.
pub open spec fn spec_resolve_url(item: FeedItem) -> Option<Seq<char>> {
    match item.enclosure {
        Some(enc) => Some(enc.url@),
        None => spec_url_from_extensions(item),
    }
}

/// The resolved duration in milliseconds: the enclosure's length when it
/// parses, else the media extension fallback (which never resolves),
/// else the podcast-specific duration when it parses.
pub open spec fn spec_resolve_duration(item: FeedItem) -> Option<u64> {
    match spec_enclosure_duration(item) {
        Some(ms) => Some(ms),
        None => spec_itunes_duration(item),
    }
}

/// Law: resolution fallback order for the stream URL — when an item
/// carries an enclosure, the enclosure's URL wins over any vendor
/// extension URL; only an item without an enclosure falls through to
/// the vendor media extension, whose URL counts only under the exact
/// `media:content` tag name.
pub proof fn lemma_url_fallback_order(item: FeedItem)
    ensures
        item.enclosure matches Some(enc) ==> spec_resolve_url(item) == Some(enc.url@),
        item.enclosure is None ==> spec_resolve_url(item) == spec_url_from_extensions(item),
{
}

/// Looks a stream URL up in the item's vendor extensions.
pub fn url_from_extensions(item: &FeedItem) -> (r: Option<String>)
    ensures
        match r {
            Some(u) => spec_url_from_extensions(*item) == Some(u@),
            None => spec_url_from_extensions(*item) is None,
        },
{
    let groups = match assoc_get(&item.extensions, "media") {
        Some(g) => g,
        None => {
            return None;
        },
    };
    let elems = match assoc_get(groups, "content") {
        Some(e) => e,
        None => {
            return None;
        },
    };
    if elems.len() == 0 {
        return None;
    }
    let element = &elems[0];
    if !str_eq(element.name.as_str(), "media:content") {
        return None;
    }
    match assoc_get(&element.attrs, "url") {
        Some(u) => Some(u.clone()),
        None => None,
    }
}

/// Looks a duration up in the item's vendor extensions. The numeric
/// field's location in the media namespace is unknown, so this fallback
/// checks the pathway and then always resolves to absent; it is kept as
/// a permanently disabled strategy rather than guessed at.
pub fn length_from_extensions(item: &FeedItem) -> (r: Option<Duration>)
    ensures
        r is None,
{
    let groups = match assoc_get(&item.extensions, "media") {
        Some(g) => g,
        None => {
            return None;
        },
    };
    let elems = match assoc_get(groups, "content") {
        Some(e) => e,
        None => {
            return None;
        },
    };
    if elems.len() == 0 {
        return None;
    }
    let element = &elems[0];
    if !str_eq(element.name.as_str(), "media:content") {
        return None;
    }
    None
}

/// Clones an optional title for an error report.
fn clone_opt_string(o: &Option<String>) -> (r: Option<String>)
    ensures
        opt_str_view(r) == opt_str_view(*o),
{
    match o {
        Some(s) => Some(s.clone()),
        None => None,
    }
}

impl Episode {
    /// Resolves one feed item into a record, or reports which required
    /// field stayed absent after every fallback.
    pub fn try_from(item: &FeedItem) -> (r: Result<Episode, ResolveError>)
        ensures
            r is Ok <==> spec_resolve_url(*item) is Some && spec_resolve_duration(*item)
                is Some,
            match r {
                Ok(ep) => spec_resolve_url(*item) == Some(ep.stream_url@)
                    && spec_resolve_duration(*item) == Some(ep.duration.millis),
                Err(ResolveError::NoStreamUrl { title }) => spec_resolve_url(*item) is None
                    && opt_str_view(title) == opt_str_view(item.title),
                Err(ResolveError::NoDuration { title }) => spec_resolve_url(*item) is Some
                    && spec_resolve_duration(*item) is None && opt_str_view(title)
                    == opt_str_view(item.title),
            },
    {
        let stream_url: Option<String> = match &item.enclosure {
            Some(enc) => Some(enc.url.clone()),
            None => url_from_extensions(item),
        };
        let duration: Option<Duration> = match &item.enclosure {
            Some(enc) => Duration::parse(enc.length.as_str()),
            None => None,
        };
        let duration: Option<Duration> = match duration {
            Some(d) => Some(d),
            None => length_from_extensions(item),
        };
        let duration: Option<Duration> = match duration {
            Some(d) => Some(d),
            None => match &item.itunes_duration {
                Some(s) => Duration::parse(s.as_str()),
                None => None,
            },
        };
        let stream_url = match stream_url {
            Some(u) => u,
            None => {
                return Err(ResolveError::NoStreamUrl { title: clone_opt_string(&item.title) });
            },
        };
        let duration = match duration {
            Some(d) => d,
            None => {
                return Err(ResolveError::NoDuration { title: clone_opt_string(&item.title) });
            },
        };
        Ok(Episode { stream_url, duration })
    }
}

} // verus!

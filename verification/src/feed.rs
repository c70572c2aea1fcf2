//! In-memory model of a parsed feed: a channel, its items in document
//! order, and the optional pieces the resolver inspects.
//!
//! A feed item exposes an optional enclosure, vendor extension namespaces
//! (each a named group of named elements carrying attribute pairs), and
//! an optional podcast-specific duration string. Namespace, element and
//! attribute mappings are held as association lists; a lookup takes the
//! first binding of a key.

use vstd::prelude::*;

verus! {

/// A feed item's attached-media descriptor: a URL and a free-form length
/// string.
#[derive(Clone, Debug)]
pub struct Enclosure {
    pub url: String,
    pub length: String,
}

/// One nested element of a vendor extension namespace: a tag name and its
/// attribute pairs.
#[derive(Clone, Debug)]
pub struct ExtensionElement {
    pub name: String,
    pub attrs: Vec<(String, String)>,
}

/// A feed item: one episode candidate of a syndication document.
#[derive(Clone, Debug)]
pub struct FeedItem {
    /// The item's title; assumed present for well-formed feeds, but its
    /// absence is handled as an explicit error, never a crash.
    pub title: Option<String>,
    /// The item's attached-media descriptor, when present.
    pub enclosure: Option<Enclosure>,
    /// Vendor extension namespaces: pairs of a namespace name and that
    /// namespace's element groups, each a pair of an element name and
    /// the elements carrying it.
    pub extensions: Vec<(String, Vec<(String, Vec<ExtensionElement>)>)>,
    /// The podcast-specific extension's duration string, when present.
    pub itunes_duration: Option<String>,
}

/// A parsed feed channel: a title and its items in document order.
#[derive(Clone, Debug)]
pub struct Channel {
    pub title: String,
    pub items: Vec<FeedItem>,
}

/// First value bound to `key` in an association list, if any.
pub open spec fn spec_assoc<V>(entries: Seq<(String, V)>, key: Seq<char>) -> Option<V>
    decreases entries.len(),
{
    if entries.len() == 0 {
        None
    } else if entries[0].0@ == key {
        Some(entries[0].1)
    } else {
        spec_assoc(entries.drop_first(), key)
    }
}

/// True exactly when two strings hold the same characters.
pub fn str_eq(a: &str, b: &str) -> (r: bool)
    ensures
        r == (a@ == b@),
{
    let n = a.unicode_len();
    let m = b.unicode_len();
    if n != m {
        return false;
    }
    let mut i: usize = 0;
    while i < n
        invariant
            i <= n,
            n == a@.len(),
            n == b@.len(),
            forall|j: int| 0 <= j < i ==> a@[j] == b@[j],
        decreases n - i,
    {
        if a.get_char(i) != b.get_char(i) {
            return false;
        }
        i += 1;
    }
    proof {
        assert(a@ =~= b@);
    }
    true
}

/// Looks `key` up in an association list, yielding the first binding.
pub fn assoc_get<'a, V>(entries: &'a Vec<(String, V)>, key: &str) -> (r: Option<&'a V>)
    ensures
        match r {
            Some(v) => spec_assoc(entries@, key@) == Some(*v),
            None => spec_assoc(entries@, key@) is None,
        },
{
    let n = entries.len();
    let mut i: usize = 0;
    proof {
        assert(entries@.skip(0) =~= entries@);
    }
    while i < n
        invariant
            i <= n,
            n == entries@.len(),
            spec_assoc(entries@, key@) == spec_assoc(entries@.skip(i as int), key@),
        decreases n - i,
    {
        proof {
            assert(entries@.skip(i as int)[0] == entries@[i as int]);
            assert(entries@.skip(i as int).drop_first() =~= entries@.skip(i + 1));
        }
        if str_eq(entries[i].0.as_str(), key) {
            return Some(&entries[i].1);
        }
        i += 1;
    }
    None
}

} // verus!

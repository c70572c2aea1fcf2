use episode_store::duration::Duration;
use episode_store::episode::Episode;
use episode_store::feed::{Enclosure, ExtensionElement, FeedItem};
use episode_store::resolve::{length_from_extensions, url_from_extensions, ResolveError};

type Extensions = Vec<(String, Vec<(String, Vec<ExtensionElement>)>)>;

fn media_extension(tag: &str, url: Option<&str>) -> Extensions {
    let mut attrs = Vec::new();
    if let Some(u) = url {
        attrs.push((String::from("url"), String::from(u)));
    }
    vec![(
        String::from("media"),
        vec![(
            String::from("content"),
            vec![ExtensionElement { name: String::from(tag), attrs }],
        )],
    )]
}

fn plain_item(
    title: Option<&str>,
    enclosure: Option<(&str, &str)>,
    extensions: Extensions,
    itunes_duration: Option<&str>,
) -> FeedItem {
    FeedItem {
        title: title.map(String::from),
        enclosure: enclosure.map(|(url, length)| Enclosure {
            url: String::from(url),
            length: String::from(length),
        }),
        extensions,
        itunes_duration: itunes_duration.map(String::from),
    }
}

#[test]
fn enclosure_url_wins_over_extension_url() {
    let item = plain_item(
        Some("ep"),
        Some(("https://a.example/one.mp3", "10")),
        media_extension("media:content", Some("https://b.example/two.mp3")),
        None,
    );
    let ep = Episode::try_from(&item).unwrap();
    assert_eq!(ep.stream_url, "https://a.example/one.mp3");
}

#[test]
fn extension_url_used_without_enclosure() {
    let item = plain_item(
        Some("ep"),
        None,
        media_extension("media:content", Some("https://b.example/two.mp3")),
        Some("30"),
    );
    let ep = Episode::try_from(&item).unwrap();
    assert_eq!(ep.stream_url, "https://b.example/two.mp3");
    assert_eq!(ep.duration.as_millis(), 30_000);
}

#[test]
fn wrong_tag_extension_is_silently_ignored() {
    let item = plain_item(
        Some("ep"),
        None,
        media_extension("media:thumbnail", Some("https://b.example/two.mp3")),
        Some("30"),
    );
    assert!(url_from_extensions(&item).is_none());
    match Episode::try_from(&item) {
        Err(ResolveError::NoStreamUrl { title }) => {
            assert_eq!(title.as_deref(), Some("ep"));
        }
        other => panic!("expected a missing-URL failure, got {:?}", other),
    }
}

#[test]
fn extension_duration_fallback_never_resolves() {
    let item = plain_item(
        Some("ep"),
        None,
        media_extension("media:content", Some("https://b.example/two.mp3")),
        None,
    );
    assert!(length_from_extensions(&item).is_none());
    match Episode::try_from(&item) {
        Err(ResolveError::NoDuration { title }) => {
            assert_eq!(title.as_deref(), Some("ep"));
        }
        other => panic!("expected a missing-duration failure, got {:?}", other),
    }
}

#[test]
fn enclosure_length_yields_duration() {
    let item = plain_item(Some("ep"), Some(("https://a.example/one.mp3", "125.5")), Vec::new(), None);
    let ep = Episode::try_from(&item).unwrap();
    assert_eq!(ep.duration, Duration::from_millis(125_500));
}

#[test]
fn unparseable_length_without_itunes_fails_naming_the_item() {
    let item = plain_item(
        Some("episode seven"),
        Some(("https://a.example/one.mp3", "unknown")),
        Vec::new(),
        None,
    );
    match Episode::try_from(&item) {
        Err(ResolveError::NoDuration { title }) => {
            assert_eq!(title.as_deref(), Some("episode seven"));
        }
        other => panic!("expected a missing-duration failure, got {:?}", other),
    }
}

#[test]
fn unparseable_length_falls_through_to_itunes() {
    let item = plain_item(
        Some("ep"),
        Some(("https://a.example/one.mp3", "unknown")),
        Vec::new(),
        Some("90.25"),
    );
    let ep = Episode::try_from(&item).unwrap();
    assert_eq!(ep.duration.as_millis(), 90_250);
}

#[test]
fn resolution_reads_only() {
    let item = plain_item(Some("ep"), Some(("https://a.example/one.mp3", "5")), Vec::new(), None);
    let first = Episode::try_from(&item).unwrap();
    let second = Episode::try_from(&item).unwrap();
    assert_eq!(first.stream_url, second.stream_url);
    assert_eq!(first.duration, second.duration);
}

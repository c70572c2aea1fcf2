use episode_store::duration::Duration;
use episode_store::episode::Episode;
use episode_store::error::StoreError;
use episode_store::feed::{Channel, Enclosure, FeedItem};
use episode_store::key::Key;
use episode_store::store::Episodes;

fn temp_db() -> sled::Db {
    sled::Config::new().temporary(true).open().unwrap()
}

fn resolvable_item(title: &str, url: &str, length: &str) -> FeedItem {
    FeedItem {
        title: Some(String::from(title)),
        enclosure: Some(Enclosure { url: String::from(url), length: String::from(length) }),
        extensions: Vec::new(),
        itunes_duration: None,
    }
}

fn unresolvable_item(title: &str) -> FeedItem {
    FeedItem {
        title: Some(String::from(title)),
        enclosure: None,
        extensions: Vec::new(),
        itunes_duration: None,
    }
}

#[test]
fn key_derivation_is_deterministic() {
    let k1 = Key::from((7, "an episode"));
    let k2 = Key::from((7, "an episode"));
    assert_eq!(k1.as_ref(), k2.as_ref());
    assert_eq!(k1.as_ref().len(), 8);
}

#[test]
fn distinct_pairs_usually_derive_distinct_keys() {
    let k1 = Key::from((7, "an episode"));
    let k2 = Key::from((8, "an episode"));
    let k3 = Key::from((7, "another episode"));
    assert_ne!(k1.as_ref(), k2.as_ref());
    assert_ne!(k1.as_ref(), k3.as_ref());
}

#[test]
fn add_then_get_round_trips() {
    let db = temp_db();
    let mut store = Episodes::open(&db).unwrap();
    let key = Key::from((1, "ep"));
    let ep = Episode {
        stream_url: String::from("https://example.org/ep.mp3"),
        duration: Duration::from_millis(4_000),
    };
    store.add(key, ep).unwrap();
    let back = store.get(key).unwrap();
    assert_eq!(back.stream_url, "https://example.org/ep.mp3");
    assert_eq!(back.duration.as_millis(), 4_000);
}

#[test]
fn same_key_later_write_wins() {
    let db = temp_db();
    let mut store = Episodes::open(&db).unwrap();
    let key = Key::from((1, "ep"));
    let first = Episode {
        stream_url: String::from("https://example.org/old.mp3"),
        duration: Duration::from_millis(1),
    };
    let second = Episode {
        stream_url: String::from("https://example.org/new.mp3"),
        duration: Duration::from_millis(2),
    };
    store.add(key, first).unwrap();
    store.add(key, second).unwrap();
    let back = store.get(key).unwrap();
    assert_eq!(back.stream_url, "https://example.org/new.mp3");
    assert_eq!(back.duration.as_millis(), 2);
}

#[test]
fn remove_missing_key_succeeds_and_get_reports_not_found() {
    let db = temp_db();
    let mut store = Episodes::open(&db).unwrap();
    let key = Key::from((1, "never added"));
    store.remove(key).unwrap();
    assert!(matches!(store.get(key), Err(StoreError::NotFound)));
}

#[test]
fn remove_unbinds_an_added_key() {
    let db = temp_db();
    let mut store = Episodes::open(&db).unwrap();
    let key = Key::from((1, "ep"));
    let ep = Episode {
        stream_url: String::from("https://example.org/ep.mp3"),
        duration: Duration::from_millis(4),
    };
    store.add(key, ep).unwrap();
    store.remove(key).unwrap();
    assert!(matches!(store.get(key), Err(StoreError::NotFound)));
}

#[test]
fn add_feed_skips_failing_items_without_aborting() {
    let db = temp_db();
    let mut store = Episodes::open(&db).unwrap();
    let mut items = Vec::new();
    for i in 0..10u32 {
        let title = format!("episode {}", i);
        if i == 3 || i == 7 {
            items.push(unresolvable_item(&title));
        } else {
            let url = format!("https://example.org/{}.mp3", i);
            items.push(resolvable_item(&title, &url, "60.5"));
        }
    }
    let channel = Channel { title: String::from("a show"), items };
    store.add_feed(42, channel).unwrap();

    let mut persisted = 0;
    for i in 0..10u32 {
        let title = format!("episode {}", i);
        let key = Key::from((42, title.as_str()));
        match store.get(key) {
            Ok(ep) => {
                persisted += 1;
                assert_eq!(ep.stream_url, format!("https://example.org/{}.mp3", i));
                assert_eq!(ep.duration.as_millis(), 60_500);
            }
            Err(StoreError::NotFound) => {
                assert!(i == 3 || i == 7);
            }
            Err(other) => panic!("unexpected store failure: {:?}", other),
        }
    }
    assert_eq!(persisted, 8);
}

#[test]
fn add_feed_reports_untitled_resolvable_item() {
    let db = temp_db();
    let mut store = Episodes::open(&db).unwrap();
    let untitled = FeedItem {
        title: None,
        enclosure: Some(Enclosure {
            url: String::from("https://example.org/x.mp3"),
            length: String::from("5"),
        }),
        extensions: Vec::new(),
        itunes_duration: None,
    };
    let channel = Channel { title: String::from("a show"), items: vec![untitled] };
    assert!(matches!(store.add_feed(1, channel), Err(StoreError::UntitledItem)));
}

#[test]
fn add_feed_ignores_untitled_unresolvable_item() {
    let db = temp_db();
    let mut store = Episodes::open(&db).unwrap();
    let untitled = FeedItem {
        title: None,
        enclosure: None,
        extensions: Vec::new(),
        itunes_duration: None,
    };
    let channel = Channel { title: String::from("a show"), items: vec![untitled] };
    store.add_feed(1, channel).unwrap();
}

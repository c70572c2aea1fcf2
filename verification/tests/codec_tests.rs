use episode_store::duration::Duration;
use episode_store::episode::Episode;

#[test]
fn serialize_then_deserialize_round_trips() {
    let ep = Episode {
        stream_url: String::from("https://example.org/cast/ep1.mp3"),
        duration: Duration::from_millis(125_500),
    };
    let bytes = ep.serialize();
    let back = Episode::deserialize(bytes.as_slice()).unwrap();
    assert_eq!(back.stream_url, "https://example.org/cast/ep1.mp3");
    assert_eq!(back.duration.as_millis(), 125_500);
}

#[test]
fn round_trips_non_ascii_url() {
    let ep = Episode {
        stream_url: String::from("https://example.org/пример/επεισόδιο?q=日本語"),
        duration: Duration::from_millis(1),
    };
    let bytes = ep.serialize();
    let back = Episode::deserialize(bytes.as_slice()).unwrap();
    assert_eq!(back.stream_url, ep.stream_url);
    assert_eq!(back.duration.as_millis(), 1);
}

#[test]
fn round_trips_empty_url() {
    let ep = Episode { stream_url: String::new(), duration: Duration::from_millis(0) };
    let bytes = ep.serialize();
    assert_eq!(bytes.len(), 16);
    let back = Episode::deserialize(bytes.as_slice()).unwrap();
    assert_eq!(back.stream_url, "");
    assert_eq!(back.duration.as_millis(), 0);
}

#[test]
fn serialized_layout_is_stable() {
    let ep = Episode { stream_url: String::from("ab"), duration: Duration::from_millis(3) };
    let bytes = ep.serialize();
    let mut expected = vec![3u8, 0, 0, 0, 0, 0, 0, 0];
    expected.extend_from_slice(&[2, 0, 0, 0, 0, 0, 0, 0]);
    expected.extend_from_slice(b"ab");
    assert_eq!(bytes, expected);
}

#[test]
fn rejects_short_input() {
    assert!(Episode::deserialize(&[]).is_none());
    assert!(Episode::deserialize(&[0u8; 15]).is_none());
}

#[test]
fn rejects_wrong_length_field() {
    let ep = Episode { stream_url: String::from("abc"), duration: Duration::from_millis(9) };
    let mut bytes = ep.serialize();
    bytes[8] = 7;
    assert!(Episode::deserialize(bytes.as_slice()).is_none());
}

#[test]
fn rejects_invalid_utf8_payload() {
    let mut bytes = vec![0u8; 8];
    bytes.extend_from_slice(&[2, 0, 0, 0, 0, 0, 0, 0]);
    bytes.extend_from_slice(&[0xff, 0xfe]);
    assert!(Episode::deserialize(bytes.as_slice()).is_none());
}

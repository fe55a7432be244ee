use barber_api::error::AppError;
use barber_api::feed::{FeedChannel, FeedItem, RSSFeedService};
use barber_api::ids::generate_deterministic_hash;
use barber_api::models::PodcastMetadata;

fn item(title: Option<&str>, enclosure: Option<&str>, guid: Option<&str>, pub_date: Option<&str>) -> FeedItem {
    FeedItem {
        title: title.map(str::to_string),
        link: None,
        enclosure_url: enclosure.map(str::to_string),
        guid: guid.map(str::to_string),
        pub_date: pub_date.map(str::to_string),
    }
}

#[test]
fn test_extract_metadata_happy_path() {
    let item = item(
        Some("Test Episode"),
        Some("https://example.com/audio.mp3"),
        Some("real-guid-123"),
        Some("Mon, 01 Jan 2026 00:00:00 GMT"),
    );

    let result = RSSFeedService::extract_metadata(&item).expect("Should succeed");

    assert_eq!(result.title, "Test Episode");
    assert_eq!(result.audio_url, "https://example.com/audio.mp3");
    assert_eq!(result.guid, "real-guid-123");
    assert_eq!(result.publish_date, Some("Mon, 01 Jan 2026 00:00:00 GMT".to_string()));
}

#[test]
fn test_extract_metadata_missing_guid_uses_fallback() {
    let item = item(Some("No GUID Episode"), Some("https://example.com/audio.mp3"), None, None);

    let result = RSSFeedService::extract_metadata(&item).expect("Should succeed");

    let expected_hash = generate_deterministic_hash("https://example.com/audio.mp3");
    assert_eq!(result.guid, expected_hash);
}

#[test]
fn test_extract_metadata_missing_enclosure_returns_error() {
    let item = item(Some("Broken Episode"), None, None, None);

    let result = RSSFeedService::extract_metadata(&item);

    assert!(matches!(result, Err(AppError::NotFound)));
}

#[test]
fn test_parse_rss_channel_success() {
    let raw_xml = r#"
            <?xml version="1.0" encoding="UTF-8"?>
            <rss version="2.0">
                <channel>
                    <title>My Awesome Podcast</title>
                    <link>https://example.com</link>
                    <description>A podcast about testing.</description>
                </channel>
            </rss>
        "#;

    let channel = RSSFeedService::parse_rss_channel(raw_xml.as_bytes()).expect("Should parse valid XML");

    assert_eq!(channel.title, "My Awesome Podcast");
}

#[test]
fn test_parse_rss_channel_invalid_xml_returns_error() {
    let broken_xml = r#"
            <?xml version="1.0" encoding="UTF-8"?>
            <rss version="2.0">
                <channel>
                    <title>Broken Podcast</title>
        "#;

    let result = RSSFeedService::parse_rss_channel(broken_xml.as_bytes());

    assert!(matches!(result, Err(AppError::InternalServerError(_))));
}

#[test]
fn untitled_item_is_unknown_episode() {
    let item = item(None, Some("https://example.com/a.mp3"), Some("g"), None);
    let e = RSSFeedService::extract_metadata(&item).unwrap();
    assert_eq!(e.title, "Unknown Episode");
    assert_eq!(e.publish_date, None);
}

#[test]
fn fallback_guid_is_a_hyphenated_uuid() {
    let h = generate_deterministic_hash("https://example.com/audio.mp3");
    assert_eq!(h.len(), 36);
    assert_eq!(h, generate_deterministic_hash("https://example.com/audio.mp3"));
    assert_ne!(h, generate_deterministic_hash("https://example.com/other.mp3"));
    let bytes: Vec<char> = h.chars().collect();
    assert_eq!((bytes[8], bytes[13], bytes[18], bytes[23]), ('-', '-', '-', '-'));
    // version 5
    assert_eq!(bytes[14], '5');
}

const FEED: &str = r#"<?xml version="1.0" encoding="UTF-8"?>
<rss version="2.0" xmlns:itunes="http://www.itunes.com/dtds/podcast-1.0.dtd">
  <channel>
    <title>Show</title>
    <link>https://example.com</link>
    <description></description>
    <itunes:author>Host Name</itunes:author>
    <image><url>https://example.com/cover.png</url><title>Show</title><link>https://example.com</link></image>
    <item>
      <title>Third</title>
      <guid>g3</guid>
      <enclosure url="https://example.com/3.mp3" length="1" type="audio/mpeg"/>
      <pubDate>Wed, 03 Jan 2024 00:00:00 GMT</pubDate>
    </item>
    <item>
      <title>No audio</title>
      <guid>g2</guid>
    </item>
    <item>
      <title>First</title>
      <guid>g1</guid>
      <enclosure url="https://example.com/1.mp3" length="1" type="audio/mpeg"/>
    </item>
  </channel>
</rss>"#;

fn channel() -> FeedChannel {
    RSSFeedService::parse_rss_channel(FEED.as_bytes()).unwrap()
}

#[test]
fn parsed_feed_keeps_channel_and_item_fields() {
    let c = channel();
    assert_eq!(c.title, "Show");
    assert_eq!(c.image_url.as_deref(), Some("https://example.com/cover.png"));
    assert_eq!(c.author.as_deref(), Some("Host Name"));
    assert_eq!(c.items.len(), 3);
    assert_eq!(c.items[0].guid.as_deref(), Some("g3"));
    assert_eq!(c.items[0].enclosure_url.as_deref(), Some("https://example.com/3.mp3"));
    assert_eq!(c.items[1].enclosure_url, None);
}

#[test]
fn listing_skips_items_without_audio_and_respects_limit() {
    let c = channel();
    let all = RSSFeedService::list_episodes(&c, None);
    assert_eq!(all.iter().map(|e| e.guid.as_str()).collect::<Vec<_>>(), vec!["g3", "g1"]);
    let two = RSSFeedService::list_episodes(&c, Some(2));
    assert_eq!(two.len(), 1);
    assert_eq!(RSSFeedService::list_episodes(&c, Some(0)).len(), 0);
}

#[test]
fn find_and_latest_episode() {
    let c = channel();
    assert_eq!(RSSFeedService::find_episode(&c, "g1").unwrap().title, "First");
    assert!(matches!(RSSFeedService::find_episode(&c, "g2"), Err(AppError::NotFound)));
    assert_eq!(RSSFeedService::latest_episode(&c).unwrap().guid, "g3");
    let empty = FeedChannel {
        title: "t".into(),
        description: "".into(),
        image_url: None,
        author: None,
        items: vec![],
    };
    match RSSFeedService::latest_episode(&empty) {
        Err(AppError::InternalServerError(m)) => assert_eq!(m, "No episodes found in feed"),
        _ => panic!("expected an internal error"),
    }
    let no_audio = FeedChannel { items: vec![item(Some("x"), None, None, None)], ..empty };
    assert!(matches!(RSSFeedService::latest_episode(&no_audio), Err(AppError::NotFound)));
}

#[test]
fn metadata_from_channel_drops_empty_description() {
    let c = channel();
    let m = PodcastMetadata::from_channel(&c, "https://example.com/feed".into());
    assert_eq!(m.title, "Show");
    assert_eq!(m.feed_url, "https://example.com/feed");
    assert_eq!(m.description, None);
    assert_eq!(m.author.as_deref(), Some("Host Name"));
    let with_desc = FeedChannel { description: "About".into(), ..c };
    let m2 = PodcastMetadata::from_channel(&with_desc, "u".into());
    assert_eq!(m2.description.as_deref(), Some("About"));
}

use iptv_core::domain::{
    Categories, Category, Channel, Channels, Countries, Country, Feed, Feeds, Language, Languages,
    Programs, Stream, Streams,
};
use iptv_core::ports::{CacheStore, ChannelDataSource, PortError};
use iptv_core::repository::{CatalogRepository, IptvCatalogRepository};
use parking_lot::RwLock;
use std::sync::atomic::{AtomicUsize, Ordering};
use std::sync::Arc;

type Res<T> = Result<T, PortError>;

fn port_error(message: &str) -> PortError {
    PortError { message: message.to_string() }
}

/// Test double for `ChannelDataSource` whose contents can be changed
/// between refreshes so stale-data behaviour can be exercised.
/// This Mock contains member fields for testing.
/// Actual adapter implementations do not hold fetched values; instead,
///  the repository is responsible for storing what is fetched in its locked maps
/// after they have been cached.
#[derive(Default)]
struct MockDataSource {
    channels: RwLock<Channels>,
    feeds: RwLock<Feeds>,
    streams: RwLock<Streams>,
    categories: RwLock<Categories>,
    countries: RwLock<Countries>,
    languages: RwLock<Languages>,
}

impl ChannelDataSource for MockDataSource {
    fn fetch_channels(&self) -> Res<Channels> {
        Ok(self.channels.read().clone())
    }

    fn fetch_feeds(&self) -> Res<Feeds> {
        Ok(self.feeds.read().clone())
    }

    fn fetch_streams(&self) -> Res<Streams> {
        Ok(self.streams.read().clone())
    }

    fn fetch_countries(&self) -> Res<Countries> {
        Ok(self.countries.read().clone())
    }

    fn fetch_languages(&self) -> Res<Languages> {
        Ok(self.languages.read().clone())
    }

    fn fetch_guides(&self) -> Res<Programs> {
        Ok(vec![])
    }

    fn fetch_categories(&self) -> Res<Categories> {
        Ok(self.categories.read().clone())
    }
}

/// Test double for `CacheStore` with per-save success flags and call
/// counters, so negative tests can prove a save was attempted but the
/// data was still not published.
struct MockCacheStore {
    save_channels_ok: bool,
    save_feeds_ok: bool,
    save_streams_ok: bool,
    save_channels_calls: AtomicUsize,
    save_feeds_calls: AtomicUsize,
    save_streams_calls: AtomicUsize,
}

impl Default for MockCacheStore {
    fn default() -> Self {
        Self {
            save_channels_ok: true,
            save_feeds_ok: true,
            save_streams_ok: true,
            save_channels_calls: AtomicUsize::new(0),
            save_feeds_calls: AtomicUsize::new(0),
            save_streams_calls: AtomicUsize::new(0),
        }
    }
}

impl MockCacheStore {
    fn with_save_channels_failing(mut self) -> Self {
        self.save_channels_ok = false;
        self
    }

    fn with_save_feeds_failing(mut self) -> Self {
        self.save_feeds_ok = false;
        self
    }

    fn with_save_streams_failing(mut self) -> Self {
        self.save_streams_ok = false;
        self
    }
}

impl CacheStore for MockCacheStore {
    fn save_channels(&self, _channels: &Channels) -> Res<()> {
        self.save_channels_calls.fetch_add(1, Ordering::SeqCst);
        if self.save_channels_ok {
            Ok(())
        } else {
            Err(port_error("save_channels failed"))
        }
    }

    fn load_channels(&self) -> Res<Channels> {
        Ok(vec![])
    }

    fn save_feeds(&self, _feeds: &Feeds) -> Res<()> {
        self.save_feeds_calls.fetch_add(1, Ordering::SeqCst);
        if self.save_feeds_ok {
            Ok(())
        } else {
            Err(port_error("save_feeds failed"))
        }
    }

    fn load_feeds(&self) -> Res<Feeds> {
        Ok(vec![])
    }

    fn save_streams(&self, _streams: &Streams) -> Res<()> {
        self.save_streams_calls.fetch_add(1, Ordering::SeqCst);
        if self.save_streams_ok {
            Ok(())
        } else {
            Err(port_error("save_streams failed"))
        }
    }

    fn load_streams(&self) -> Res<Streams> {
        Ok(vec![])
    }

    fn save_categories(&self, _categories: &Categories) -> Res<()> {
        Ok(())
    }

    fn load_categories(&self) -> Res<Categories> {
        Ok(vec![])
    }

    fn save_countries(&self, _countries: &Countries) -> Res<()> {
        Ok(())
    }

    fn load_countries(&self) -> Res<Countries> {
        Ok(vec![])
    }

    fn save_languages(&self, _languages: &Languages) -> Res<()> {
        Ok(())
    }

    fn load_languages(&self) -> Res<Languages> {
        Ok(vec![])
    }

    fn save_programs(&self, _programs: &Programs) -> Res<()> {
        Ok(())
    }

    fn load_programs(&self) -> Res<Programs> {
        Ok(vec![])
    }
}

fn channel(id: &str) -> Channel {
    Channel {
        id: id.to_string(),
        name: format!("Channel {}", id),
        alt_names: vec![],
        category_ids: vec![],
        country_code: "US".to_string(),
        is_nsfw: false,
        launched: None,
        closed: None,
        website: String::new(),
        network: String::new(),
    }
}

fn feed(id: &str, channel_id: &str) -> Feed {
    Feed {
        id: id.to_string(),
        channel_id: channel_id.to_string(),
        name: format!("Feed {}", id),
        broadcast_codes: vec![],
        language_codes: vec![],
        is_main: false,
    }
}

fn stream(channel_id: &str, feed_id: &str) -> Stream {
    Stream {
        channel_id: channel_id.to_string(),
        feed_id: feed_id.to_string(),
        url: format!("https://example.com/{}/{}.m3u8", channel_id, feed_id),
        quality: "720p".to_string(),
        referrer: String::new(),
        title: format!("Stream {}/{}", channel_id, feed_id),
        user_agent: String::new(),
    }
}

fn category(id: &str, name: &str) -> Category {
    Category {
        id: id.to_string(),
        name: name.to_string(),
        description: String::new(),
    }
}

fn country(code: &str, name: &str, languages: &[&str]) -> Country {
    Country {
        code: code.to_string(),
        name: name.to_string(),
        languages: languages.iter().map(|s| s.to_string()).collect(),
        flag_url: String::new(),
    }
}

fn language(code: &str, name: &str) -> Language {
    Language {
        code: code.to_string(),
        name: name.to_string(),
    }
}

#[test]
fn refresh_populates_all_catalog_data() {
    let data_source = MockDataSource {
        channels: RwLock::new(vec![channel("ch1"), channel("ch2")]),
        feeds: RwLock::new(vec![feed("feed1", "ch1"), feed("feed2", "ch2")]),
        streams: RwLock::new(vec![stream("ch1", "feed1"), stream("ch2", "feed2")]),
        categories: RwLock::new(vec![category("news", "News")]),
        countries: RwLock::new(vec![country("US", "United States", &["en"])]),
        languages: RwLock::new(vec![language("en", "English")]),
        ..Default::default()
    };
    let mut repository =
        IptvCatalogRepository::new(Arc::new(data_source), Arc::new(MockCacheStore::default()));

    repository.refresh();

    assert_eq!(repository.get_channels().len(), 2);
    assert_eq!(repository.get_channel_by_id("ch1"), Some(channel("ch1")));
    assert_eq!(
        repository.get_feeds_by_channel("ch1"),
        Some(vec![feed("feed1", "ch1")])
    );
    assert_eq!(
        repository.get_candidate_streams("ch1", Some("feed1")),
        Some(vec![stream("ch1", "feed1")])
    );
    assert_eq!(
        repository.get_categories(),
        vec![category("news", "News")]
    );
    assert_eq!(
        repository.get_countries(),
        vec![country("US", "United States", &["en"])]
    );
    assert_eq!(repository.get_languages(), vec![language("en", "English")]);
}

#[test]
fn refresh_groups_multiple_feeds_per_channel() {
    let data_source = MockDataSource {
        feeds: RwLock::new(vec![
            feed("feed1", "ch1"),
            feed("feed2", "ch1"),
            feed("feed3", "ch1"),
        ]),
        ..Default::default()
    };
    let mut repository =
        IptvCatalogRepository::new(Arc::new(data_source), Arc::new(MockCacheStore::default()));

    repository.refresh();

    assert_eq!(
        repository.get_feeds_by_channel("ch1"),
        Some(vec![
            feed("feed1", "ch1"),
            feed("feed2", "ch1"),
            feed("feed3", "ch1"),
        ])
    );
}

#[test]
fn refresh_groups_feeds_by_owning_channel() {
    let data_source = MockDataSource {
        feeds: RwLock::new(vec![feed("feed1", "ch1"), feed("feed2", "ch2")]),
        ..Default::default()
    };
    let mut repository =
        IptvCatalogRepository::new(Arc::new(data_source), Arc::new(MockCacheStore::default()));

    repository.refresh();

    assert_eq!(
        repository.get_feeds_by_channel("ch1"),
        Some(vec![feed("feed1", "ch1")])
    );
    assert_eq!(
        repository.get_feeds_by_channel("ch2"),
        Some(vec![feed("feed2", "ch2")])
    );
}

#[test]
fn refresh_groups_streams_by_channel_and_feed_key() {
    let data_source = MockDataSource {
        streams: RwLock::new(vec![
            stream("ch1", "feed1"),
            stream("ch1", "feed2"),
            stream("ch2", "feed2"),
        ]),
        ..Default::default()
    };
    let mut repository =
        IptvCatalogRepository::new(Arc::new(data_source), Arc::new(MockCacheStore::default()));

    repository.refresh();

    assert_eq!(
        repository.get_candidate_streams("ch1", Some("feed1")),
        Some(vec![stream("ch1", "feed1")])
    );
    assert_eq!(
        repository.get_candidate_streams("ch1", Some("feed2")),
        Some(vec![stream("ch1", "feed2")])
    );
    assert_eq!(
        repository.get_candidate_streams("ch2", Some("feed2")),
        Some(vec![stream("ch2", "feed2")])
    );
}

#[test]
fn refresh_stores_empty_feed_id_streams_under_none_key() {
    let data_source = MockDataSource {
        streams: RwLock::new(vec![stream("ch1", ""), stream("ch1", "feed1")]),
        ..Default::default()
    };
    let mut repository =
        IptvCatalogRepository::new(Arc::new(data_source), Arc::new(MockCacheStore::default()));

    repository.refresh();

    // Empty feed_id streams are stored under the None key ...
    assert_eq!(
        repository.get_candidate_streams("ch1", None::<&str>),
        Some(vec![stream("ch1", "")])
    );
    // ... and Some("") is normalized to None on the read path.
    assert_eq!(
        repository.get_candidate_streams("ch1", Some("")),
        Some(vec![stream("ch1", "")])
    );
    // Specific feeds still resolve independently.
    assert_eq!(
        repository.get_candidate_streams("ch1", Some("feed1")),
        Some(vec![stream("ch1", "feed1")])
    );
}

#[test]
fn refresh_replaces_stale_data_on_second_call() {
    let data_source = Arc::new(MockDataSource {
        channels: RwLock::new(vec![channel("ch1")]),
        feeds: RwLock::new(vec![feed("old_feed", "ch1")]),
        streams: RwLock::new(vec![stream("ch1", "old_feed")]),
        ..Default::default()
    });
    let mut repository =
        IptvCatalogRepository::new(data_source.clone(), Arc::new(MockCacheStore::default()));

    repository.refresh();
    assert_eq!(repository.get_channels().len(), 1);
    assert!(repository.get_feeds_by_channel("ch1").is_some());
    assert!(
        repository
            .get_candidate_streams("ch1", Some("old_feed"))
            .is_some()
    );

    // Replace the source data entirely before the second refresh.
    *data_source.channels.write() = vec![channel("ch2")];
    *data_source.feeds.write() = vec![feed("new_feed", "ch2")];
    *data_source.streams.write() = vec![stream("ch2", "new_feed")];

    repository.refresh();

    // Channels ops are additive across refreshes (not wholesale replaced).
    // ch1 still exists because the imple uses insert per-channel.
    assert_eq!(repository.get_channel_by_id("ch1"), Some(channel("ch1")));
    assert_eq!(repository.get_channel_by_id("ch2"), Some(channel("ch2")));
    // Feeds and streams are wholesale-replaced, so old ones are gone.
    assert!(repository.get_feeds_by_channel("ch1").is_none());
    assert_eq!(
        repository.get_feeds_by_channel("ch2"),
        Some(vec![feed("new_feed", "ch2")])
    );
    assert!(
        repository
            .get_candidate_streams("ch1", Some("old_feed"))
            .is_none()
    );
    assert_eq!(
        repository.get_candidate_streams("ch2", Some("new_feed")),
        Some(vec![stream("ch2", "new_feed")])
    );
}

#[test]
fn get_channel_by_id_returns_none_for_unknown_channel() {
    let mut repository = IptvCatalogRepository::new(
        Arc::new(MockDataSource::default()),
        Arc::new(MockCacheStore::default()),
    );

    repository.refresh();

    assert!(repository.get_channels().is_empty());
    assert!(repository.get_channel_by_id("unknown").is_none());
}

#[test]
fn get_feeds_by_channel_returns_none_for_unknown_channel() {
    let data_source = MockDataSource {
        feeds: RwLock::new(vec![feed("feed1", "ch1")]),
        ..Default::default()
    };
    let mut repository =
        IptvCatalogRepository::new(Arc::new(data_source), Arc::new(MockCacheStore::default()));

    repository.refresh();

    assert_eq!(
        repository.get_feeds_by_channel("ch1"),
        Some(vec![feed("feed1", "ch1")])
    );
    assert!(repository.get_feeds_by_channel("ch2").is_none());
}

#[test]
fn get_candidate_streams_returns_none_for_unknown_pair() {
    let data_source = MockDataSource {
        streams: RwLock::new(vec![stream("ch1", "feed1")]),
        ..Default::default()
    };
    let mut repository =
        IptvCatalogRepository::new(Arc::new(data_source), Arc::new(MockCacheStore::default()));

    repository.refresh();

    // Unknown channel.
    assert!(
        repository
            .get_candidate_streams("ch2", Some("feed1"))
            .is_none()
    );
    // Known channel, unknown feed.
    assert!(
        repository
            .get_candidate_streams("ch1", Some("feed2"))
            .is_none()
    );
    // Known channel, no feed (the only stream is tied to a specific feed).
    assert!(
        repository
            .get_candidate_streams("ch1", None::<&str>)
            .is_none()
    );
}

#[test]
fn refresh_skips_channels_when_cache_save_fails() {
    let data_source = MockDataSource {
        channels: RwLock::new(vec![channel("ch1")]),
        ..Default::default()
    };
    let cache = Arc::new(MockCacheStore::default().with_save_channels_failing());
    let mut repository = IptvCatalogRepository::new(Arc::new(data_source), cache.clone());

    repository.refresh();

    // The save was attempted ...
    assert_eq!(cache.save_channels_calls.load(Ordering::SeqCst), 1);
    // ... but the data was not published.
    assert!(repository.get_channels().is_empty());
    assert!(repository.get_channel_by_id("ch1").is_none());
}

#[test]
fn refresh_skips_feeds_when_cache_save_fails() {
    let data_source = MockDataSource {
        feeds: RwLock::new(vec![feed("feed1", "ch1")]),
        ..Default::default()
    };
    let cache = Arc::new(MockCacheStore::default().with_save_feeds_failing());
    let mut repository = IptvCatalogRepository::new(Arc::new(data_source), cache.clone());

    repository.refresh();

    assert_eq!(cache.save_feeds_calls.load(Ordering::SeqCst), 1);
    assert!(repository.get_feeds_by_channel("ch1").is_none());
}

#[test]
fn refresh_skips_streams_when_cache_save_fails() {
    let data_source = MockDataSource {
        streams: RwLock::new(vec![stream("ch1", "feed1")]),
        ..Default::default()
    };
    let cache = Arc::new(MockCacheStore::default().with_save_streams_failing());
    let mut repository = IptvCatalogRepository::new(Arc::new(data_source), cache.clone());

    repository.refresh();

    assert_eq!(cache.save_streams_calls.load(Ordering::SeqCst), 1);
    assert!(
        repository
            .get_candidate_streams("ch1", Some("feed1"))
            .is_none()
    );
}

#[test]
fn refresh_with_empty_data_source_leaves_maps_empty() {
    let mut repository = IptvCatalogRepository::new(
        Arc::new(MockDataSource::default()),
        Arc::new(MockCacheStore::default()),
    );

    repository.refresh();

    assert!(repository.get_channels().is_empty());
    assert!(repository.get_channel_by_id("any").is_none());
    assert!(repository.get_feeds_by_channel("any").is_none());
    assert!(
        repository
            .get_candidate_streams("any", Some("any"))
            .is_none()
    );
    assert!(
        repository
            .get_candidate_streams("any", None::<&str>)
            .is_none()
    );
    assert!(repository.get_categories().is_empty());
    assert!(repository.get_countries().is_empty());
    assert!(repository.get_languages().is_empty());
}

#[test]
fn refresh_populates_categories() {
    let data_source = MockDataSource {
        categories: RwLock::new(vec![category("news", "News"), category("sports", "Sports")]),
        ..Default::default()
    };
    let mut repository =
        IptvCatalogRepository::new(Arc::new(data_source), Arc::new(MockCacheStore::default()));

    repository.refresh();

    assert_eq!(
        repository.get_categories(),
        vec![category("news", "News"), category("sports", "Sports")]
    );
}

#[test]
fn refresh_populates_countries() {
    let data_source = MockDataSource {
        countries: RwLock::new(vec![country("US", "United States", &["en"])]),
        ..Default::default()
    };
    let mut repository =
        IptvCatalogRepository::new(Arc::new(data_source), Arc::new(MockCacheStore::default()));

    repository.refresh();

    assert_eq!(
        repository.get_countries(),
        vec![country("US", "United States", &["en"])]
    );
}

#[test]
fn refresh_populates_languages() {
    let data_source = MockDataSource {
        languages: RwLock::new(vec![language("en", "English"), language("fr", "French")]),
        ..Default::default()
    };
    let mut repository =
        IptvCatalogRepository::new(Arc::new(data_source), Arc::new(MockCacheStore::default()));

    repository.refresh();

    assert_eq!(
        repository.get_languages(),
        vec![language("en", "English"), language("fr", "French")]
    );
}

#[test]
fn refresh_replaces_categories_on_second_call() {
    let data_source = Arc::new(MockDataSource {
        categories: RwLock::new(vec![category("news", "News")]),
        ..Default::default()
    });
    let mut repository =
        IptvCatalogRepository::new(data_source.clone(), Arc::new(MockCacheStore::default()));

    repository.refresh();
    assert_eq!(repository.get_categories(), vec![category("news", "News")]);

    *data_source.categories.write() = vec![category("sports", "Sports")];

    repository.refresh();

    assert_eq!(repository.get_categories(), vec![category("sports", "Sports")]);
}

#[test]
fn refresh_replaces_countries_on_second_call() {
    let data_source = Arc::new(MockDataSource {
        countries: RwLock::new(vec![country("US", "United States", &["en"])]),
        ..Default::default()
    });
    let mut repository =
        IptvCatalogRepository::new(data_source.clone(), Arc::new(MockCacheStore::default()));

    repository.refresh();
    assert_eq!(
        repository.get_countries(),
        vec![country("US", "United States", &["en"])]
    );

    *data_source.countries.write() = vec![country("DE", "Germany", &["de"])];

    repository.refresh();

    assert_eq!(
        repository.get_countries(),
        vec![country("DE", "Germany", &["de"])]
    );
}

#[test]
fn refresh_replaces_languages_on_second_call() {
    let data_source = Arc::new(MockDataSource {
        languages: RwLock::new(vec![language("en", "English")]),
        ..Default::default()
    });
    let mut repository =
        IptvCatalogRepository::new(data_source.clone(), Arc::new(MockCacheStore::default()));

    repository.refresh();
    assert_eq!(repository.get_languages(), vec![language("en", "English")]);

    *data_source.languages.write() = vec![language("fr", "French")];

    repository.refresh();

    assert_eq!(repository.get_languages(), vec![language("fr", "French")]);
}

#[test]
fn get_categories_returns_empty_before_refresh() {
    let mut repository = IptvCatalogRepository::new(
        Arc::new(MockDataSource {
            categories: RwLock::new(vec![category("news", "News")]),
            ..Default::default()
        }),
        Arc::new(MockCacheStore::default()),
    );

    // No refresh has happened yet, so nothing is stored.
    assert!(repository.get_categories().is_empty());
}

#[test]
fn get_countries_returns_empty_before_refresh() {
    let mut repository = IptvCatalogRepository::new(
        Arc::new(MockDataSource {
            countries: RwLock::new(vec![country("US", "United States", &["en"])]),
            ..Default::default()
        }),
        Arc::new(MockCacheStore::default()),
    );

    assert!(repository.get_countries().is_empty());
}

#[test]
fn get_languages_returns_empty_before_refresh() {
    let mut repository = IptvCatalogRepository::new(
        Arc::new(MockDataSource {
            languages: RwLock::new(vec![language("en", "English")]),
            ..Default::default()
        }),
        Arc::new(MockCacheStore::default()),
    );

    assert!(repository.get_languages().is_empty());
}

use iptv_core::catalog_service::{
    search_channels, channels_in_country, CatalogService, IptvCatalogService,
};
use iptv_core::domain::{
    Categories, Channel, Channels, Countries, Country, Feed, Feeds, Languages, Programs, Stream,
    Streams,
};
use iptv_core::facade::{CoreFacade, IptvFacade};
use iptv_core::playback::{IptvPlaybackController, PlaybackState};
use iptv_core::ports::{CacheStore, ChannelDataSource, PlayerController, PortError};
use iptv_core::repository::{
    fetched_or_empty, save_results_of, snapshot_of, CacheSaveResults, CatalogRepository, CatalogSnapshot, IptvCatalogRepository,
};
use iptv_core::stream_resolver::{IptvStreamResolver, StreamResolver};
use std::sync::atomic::{AtomicUsize, Ordering};
use std::sync::Arc;

struct StaticSource {
    channels: Channels,
    feeds: Feeds,
    streams: Streams,
    countries: Countries,
    fetches: AtomicUsize,
}

impl ChannelDataSource for StaticSource {
    fn fetch_channels(&self) -> Result<Channels, PortError> {
        self.fetches.fetch_add(1, Ordering::SeqCst);
        Ok(self.channels.clone())
    }
    fn fetch_feeds(&self) -> Result<Feeds, PortError> {
        Ok(self.feeds.clone())
    }
    fn fetch_streams(&self) -> Result<Streams, PortError> {
        Ok(self.streams.clone())
    }
    fn fetch_countries(&self) -> Result<Countries, PortError> {
        Ok(self.countries.clone())
    }
    fn fetch_languages(&self) -> Result<Languages, PortError> {
        Err(PortError { message: "languages unavailable".to_string() })
    }
    fn fetch_guides(&self) -> Result<Programs, PortError> {
        Ok(vec![])
    }
    fn fetch_categories(&self) -> Result<Categories, PortError> {
        Ok(vec![])
    }
}

struct AcceptingCache;

impl CacheStore for AcceptingCache {
    fn save_channels(&self, _: &Channels) -> Result<(), PortError> {
        Ok(())
    }
    fn load_channels(&self) -> Result<Channels, PortError> {
        Ok(vec![])
    }
    fn save_feeds(&self, _: &Feeds) -> Result<(), PortError> {
        Ok(())
    }
    fn load_feeds(&self) -> Result<Feeds, PortError> {
        Ok(vec![])
    }
    fn save_streams(&self, _: &Streams) -> Result<(), PortError> {
        Ok(())
    }
    fn load_streams(&self) -> Result<Streams, PortError> {
        Ok(vec![])
    }
    fn save_categories(&self, _: &Categories) -> Result<(), PortError> {
        Ok(())
    }
    fn load_categories(&self) -> Result<Categories, PortError> {
        Ok(vec![])
    }
    fn save_countries(&self, _: &Countries) -> Result<(), PortError> {
        Ok(())
    }
    fn load_countries(&self) -> Result<Countries, PortError> {
        Ok(vec![])
    }
    fn save_languages(&self, _: &Languages) -> Result<(), PortError> {
        Ok(())
    }
    fn load_languages(&self) -> Result<Languages, PortError> {
        Ok(vec![])
    }
    fn save_programs(&self, _: &Programs) -> Result<(), PortError> {
        Ok(())
    }
    fn load_programs(&self) -> Result<Programs, PortError> {
        Ok(vec![])
    }
}

fn channel(id: &str, name: &str, country: &str) -> Channel {
    Channel {
        id: id.to_string(),
        name: name.to_string(),
        alt_names: vec![],
        category_ids: vec![],
        country_code: country.to_string(),
        is_nsfw: false,
        launched: None,
        closed: None,
        website: String::new(),
        network: String::new(),
    }
}

fn feed(id: &str, channel_id: &str) -> Feed {
    Feed {
        id: id.to_string(),
        channel_id: channel_id.to_string(),
        name: id.to_string(),
        broadcast_codes: vec![],
        language_codes: vec![],
        is_main: false,
    }
}

fn stream(channel_id: &str, feed_id: &str, url: &str) -> Stream {
    Stream {
        channel_id: channel_id.to_string(),
        feed_id: feed_id.to_string(),
        url: url.to_string(),
        quality: String::new(),
        referrer: String::new(),
        title: url.to_string(),
        user_agent: String::new(),
    }
}

fn country(code: &str, languages: &[&str]) -> Country {
    Country {
        code: code.to_string(),
        name: code.to_string(),
        languages: languages.iter().map(|l| l.to_string()).collect(),
        flag_url: String::new(),
    }
}

fn source(channels: Channels, feeds: Feeds, streams: Streams, countries: Countries) -> StaticSource {
    StaticSource { channels, feeds, streams, countries, fetches: AtomicUsize::new(0) }
}

fn empty_snapshot() -> CatalogSnapshot {
    CatalogSnapshot {
        channels: vec![],
        feeds: vec![],
        streams: vec![],
        countries: vec![],
        categories: vec![],
        languages: vec![],
    }
}

#[test]
fn refresh_keeps_the_last_of_duplicate_channel_ids() {
    let mut repo = IptvCatalogRepository::new(
        Arc::new(source(
            vec![channel("ch1", "First", "US"), channel("ch1", "Second", "US")],
            vec![],
            vec![],
            vec![],
        )),
        Arc::new(AcceptingCache),
    );
    repo.refresh();
    assert_eq!(repo.get_channels().len(), 1);
    assert_eq!(repo.get_channel_by_id("ch1").unwrap().name, "Second");
}

#[test]
fn refreshing_twice_with_the_same_data_changes_no_lookup() {
    let mut repo = IptvCatalogRepository::new(
        Arc::new(source(
            vec![channel("ch1", "First", "US"), channel("ch2", "Two", "GB"), channel("ch1", "Again", "US")],
            vec![feed("f1", "ch1")],
            vec![stream("ch1", "f1", "u1"), stream("ch1", "", "u0")],
            vec![country("US", &["en"])],
        )),
        Arc::new(AcceptingCache),
    );
    repo.refresh();
    let channels = repo.get_channels();
    let feeds = repo.get_feeds_by_channel("ch1");
    let streams = repo.get_candidate_streams("ch1", Some("f1"));
    let countries = repo.get_countries();
    repo.refresh();
    assert_eq!(repo.get_channels(), channels);
    assert_eq!(repo.get_channel_by_id("ch1").unwrap().name, "Again");
    assert_eq!(repo.get_feeds_by_channel("ch1"), feeds);
    assert_eq!(repo.get_candidate_streams("ch1", Some("f1")), streams);
    assert_eq!(repo.get_countries(), countries);
}

#[test]
fn refresh_replaces_a_known_channel_in_place() {
    let mut repo = IptvCatalogRepository::new(
        Arc::new(source(vec![], vec![], vec![], vec![])),
        Arc::new(AcceptingCache),
    );
    let all = CacheSaveResults {
        channels: true,
        feeds: true,
        streams: true,
        categories: true,
        countries: true,
        languages: true,
    };
    let mut first = empty_snapshot();
    first.channels = vec![channel("a", "A", "US"), channel("b", "B", "US")];
    repo.apply_refresh(first, all);
    let mut second = empty_snapshot();
    second.channels = vec![channel("c", "C", "US"), channel("a", "A2", "US")];
    repo.apply_refresh(second, all);
    let ids: Vec<String> = repo.get_channels().into_iter().map(|c| c.id).collect();
    assert_eq!(ids, vec!["a", "b", "c"]);
    assert_eq!(repo.get_channel_by_id("a").unwrap().name, "A2");
}

#[test]
fn apply_refresh_publishes_only_saved_parts() {
    let mut repo = IptvCatalogRepository::new(
        Arc::new(source(vec![], vec![], vec![], vec![])),
        Arc::new(AcceptingCache),
    );
    let mut snap = empty_snapshot();
    snap.channels = vec![channel("a", "A", "US")];
    snap.countries = vec![country("US", &["en"])];
    repo.apply_refresh(
        snap,
        CacheSaveResults {
            channels: false,
            feeds: true,
            streams: true,
            categories: true,
            countries: true,
            languages: true,
        },
    );
    assert!(repo.get_channels().is_empty());
    assert_eq!(repo.get_countries(), vec![country("US", &["en"])]);
}

#[test]
fn failed_fetch_publishes_an_empty_part() {
    let mut repo = IptvCatalogRepository::new(
        Arc::new(source(vec![], vec![], vec![], vec![])),
        Arc::new(AcceptingCache),
    );
    repo.refresh();
    assert!(repo.get_languages().is_empty());
}

#[test]
fn a_failed_fetch_empties_only_its_own_part() {
    let down = || PortError { message: "down".to_string() };
    let snap = snapshot_of(
        Err(down()),
        Ok(vec![feed("f1", "ch1")]),
        Err(down()),
        Ok(vec![country("US", &["en"])]),
        Ok(vec![]),
        Err(down()),
    );
    assert!(snap.channels.is_empty());
    assert_eq!(snap.feeds, vec![feed("f1", "ch1")]);
    assert!(snap.streams.is_empty());
    assert_eq!(snap.countries, vec![country("US", &["en"])]);
    assert!(snap.categories.is_empty());
    assert!(snap.languages.is_empty());
}

#[test]
fn a_part_counts_as_saved_exactly_when_its_save_succeeded() {
    let refused: Result<(), PortError> = Err(PortError { message: "disk full".to_string() });
    let r = save_results_of(&Ok(()), &refused, &Ok(()), &refused, &Ok(()), &refused);
    assert_eq!(
        r,
        CacheSaveResults {
            channels: true,
            feeds: false,
            streams: true,
            categories: false,
            countries: true,
            languages: false,
        }
    );
}

#[test]
fn fetched_or_empty_keeps_what_was_fetched() {
    assert_eq!(fetched_or_empty(Ok(vec![1u8, 2, 3])), vec![1u8, 2, 3]);
    let failed: Result<Vec<u8>, PortError> = Err(PortError { message: "down".to_string() });
    assert!(fetched_or_empty(failed).is_empty());
}

#[test]
fn search_ignores_ascii_case_of_the_query() {
    let chs = vec![channel("bbc1", "BBC One", "GB"), channel("cnn", "CNN", "US")];
    let lower = search_channels(&chs, "bbc one");
    let upper = search_channels(&chs, "BBC ONE");
    assert_eq!(lower, upper);
    assert_eq!(lower.len(), 1);
}

#[test]
fn search_with_a_blank_query_finds_nothing() {
    let chs = vec![channel("bbc1", "BBC One", "GB"), channel("cnn", "CNN", "US")];
    assert!(search_channels(&chs, " ").is_empty());
    assert!(search_channels(&chs, " \t\n").is_empty());
    assert!(search_channels(&chs, "\u{3000}").is_empty());
    assert_eq!(search_channels(&chs, " One").len(), 1);
}

#[test]
fn country_filter_ignores_ascii_case_of_the_code() {
    let chs = vec![channel("a", "A", "US"), channel("b", "B", "gb"), channel("c", "C", "us")];
    assert_eq!(channels_in_country(&chs, "us"), channels_in_country(&chs, "US"));
    assert_eq!(channels_in_country(&chs, "GB").len(), 1);
}

#[test]
fn language_filter_uses_the_first_country_speaking_it() {
    let repo = IptvCatalogRepository::new(
        Arc::new(source(
            vec![channel("us1", "US One", "US"), channel("gb1", "GB One", "GB")],
            vec![],
            vec![],
            vec![country("US", &["en"]), country("GB", &["en"])],
        )),
        Arc::new(AcceptingCache),
    );
    let mut svc = IptvCatalogService::new(repo);
    svc.refresh();
    let ids: Vec<String> = svc.filter_by_language("EN").into_iter().map(|c| c.id).collect();
    assert_eq!(ids, vec!["us1"]);
}

#[test]
fn resolver_lists_unassigned_streams_then_each_feed_in_order() {
    let mut repo = IptvCatalogRepository::new(
        Arc::new(source(
            vec![],
            vec![feed("f2", "ch1"), feed("f1", "ch1"), feed("x", "ch2")],
            vec![
                stream("ch1", "f1", "u-f1"),
                stream("ch1", "", "u-none"),
                stream("ch1", "f2", "u-f2"),
                stream("ch2", "x", "u-x"),
            ],
            vec![],
        )),
        Arc::new(AcceptingCache),
    );
    repo.refresh();
    let resolver = IptvStreamResolver::new(repo);
    let urls: Vec<String> =
        resolver.get_candidate_streams("ch1").into_iter().map(|s| s.url).collect();
    assert_eq!(urls, vec!["u-none", "u-f2", "u-f1"]);
    assert!(resolver.get_candidate_streams("ch3").is_empty());
}

struct SilentPlayer;

impl PlayerController for SilentPlayer {
    fn load(&self, _stream: Stream) -> Result<(), PortError> {
        Ok(())
    }
    fn play(&self) -> Result<(), PortError> {
        Ok(())
    }
    fn pause(&self) -> Result<(), PortError> {
        Ok(())
    }
    fn stop(&self) -> Result<(), PortError> {
        Ok(())
    }
    fn seek_position(&self, _position: u32) -> Result<(), PortError> {
        Err(PortError { message: "seeking unsupported".to_string() })
    }
}

struct FixedResolver(Streams);

impl StreamResolver for FixedResolver {
    fn get_candidate_streams(&self, _channel_id: &str) -> Streams {
        self.0.clone()
    }
}

#[test]
fn facade_delegates_to_catalog_and_player() {
    let src = Arc::new(source(vec![channel("us1", "US One", "US")], vec![], vec![], vec![]));
    let repo = IptvCatalogRepository::new(src.clone(), Arc::new(AcceptingCache));
    let svc = IptvCatalogService::new(repo);
    let ctrl =
        IptvPlaybackController::new(FixedResolver(vec![stream("us1", "", "u1")]), SilentPlayer);
    let mut facade = IptvFacade::new(svc, ctrl);

    facade.refresh();
    assert_eq!(src.fetches.load(Ordering::SeqCst), 1);
    assert_eq!(facade.get_catalog_service().get_all().len(), 1);

    facade.play("us1");
    assert_eq!(
        *facade.playback_controller.state(),
        PlaybackState::Loading { channel_id: "us1".to_string(), attempt: 1 }
    );
    facade.seek(30);
    assert_eq!(facade.playback_controller.last_error().as_deref(), Some("seeking unsupported"));
    facade.pause();
    facade.stop();
    assert_eq!(*facade.playback_controller.state(), PlaybackState::Stopped);
}

//! The interfaces through which the library reaches the outside world: the
//! catalog data source, the snapshot cache, the user-preference store and the
//! platform video player. Applications implement them.
use crate::domain::{
    Categories, CategoryView, ChannelView, Channels, Countries, CountryView, FeedView, Feeds,
    LanguageView, Languages, ProgramView, Programs, Stream, StreamView, Streams,
};
use vstd::prelude::*;

verus! {

/// The failure reported by an implementation of one of the ports.
#[derive(Debug, PartialEq)]
pub struct PortError {
    pub message: String,
}

/// Where the raw catalog and guide data comes from (for instance the
/// iptv-org REST API).
///
/// Each fetch is tied to the answers the source may give to it, as the
/// `spec_*_answer` relations describe. A source that knows its answers states
/// them by overriding a relation; by default any answer may be given, so
/// nothing is promised of a source. The library's contracts speak of these
/// relations to say which fetch produced each answer it acted on.
pub trait ChannelDataSource {
    /// Whether `answer` is an answer this source may give to a fetch of its
    /// channels.
    closed spec fn spec_channels_answer(&self, answer: Result<Channels, PortError>) -> bool {
        true
    }

    /// Whether `answer` is an answer this source may give to a fetch of its
    /// feeds.
    closed spec fn spec_feeds_answer(&self, answer: Result<Feeds, PortError>) -> bool {
        true
    }

    /// Whether `answer` is an answer this source may give to a fetch of its
    /// streams.
    closed spec fn spec_streams_answer(&self, answer: Result<Streams, PortError>) -> bool {
        true
    }

    /// Whether `answer` is an answer this source may give to a fetch of its
    /// countries.
    closed spec fn spec_countries_answer(&self, answer: Result<Countries, PortError>) -> bool {
        true
    }

    /// Whether `answer` is an answer this source may give to a fetch of its
    /// languages.
    closed spec fn spec_languages_answer(&self, answer: Result<Languages, PortError>) -> bool {
        true
    }

    /// Whether `answer` is an answer this source may give to a fetch of its
    /// guides.
    closed spec fn spec_guides_answer(&self, answer: Result<Programs, PortError>) -> bool {
        true
    }

    /// Whether `answer` is an answer this source may give to a fetch of its
    /// categories.
    closed spec fn spec_categories_answer(&self, answer: Result<Categories, PortError>) -> bool {
        true
    }

    /// Channels available from this source.
    fn fetch_channels(&self) -> (r: Result<Channels, PortError>)
        ensures
            self.spec_channels_answer(r),
    ;

    /// Feeds provided by this source.
    fn fetch_feeds(&self) -> (r: Result<Feeds, PortError>)
        ensures
            self.spec_feeds_answer(r),
    ;

    /// Streams provided by this source.
    fn fetch_streams(&self) -> (r: Result<Streams, PortError>)
        ensures
            self.spec_streams_answer(r),
    ;

    /// Countries provided by this source.
    fn fetch_countries(&self) -> (r: Result<Countries, PortError>)
        ensures
            self.spec_countries_answer(r),
    ;

    /// Languages provided by this source.
    fn fetch_languages(&self) -> (r: Result<Languages, PortError>)
        ensures
            self.spec_languages_answer(r),
    ;

    /// The program guide provided by this source.
    fn fetch_guides(&self) -> (r: Result<Programs, PortError>)
        ensures
            self.spec_guides_answer(r),
    ;

    /// Categories provided by this source.
    fn fetch_categories(&self) -> (r: Result<Categories, PortError>)
        ensures
            self.spec_categories_answer(r),
    ;
}

/// A disposable store (file based or in memory) of the last catalog snapshot.
///
/// Each save is tied to the answers the cache may give to saving the given
/// items, as the `spec_save_*_answer` relations describe. A cache that knows
/// its answers states them by overriding a relation; by default any answer
/// may be given, so nothing is promised of a cache.
pub trait CacheStore {
    /// Whether `answer` is an answer this cache may give when asked to save
    /// the channels `items`.
    closed spec fn spec_save_channels_answer(&self, items: Seq<ChannelView>, answer: Result<(), PortError>) -> bool {
        true
    }

    /// Whether `answer` is an answer this cache may give when asked to save
    /// the feeds `items`.
    closed spec fn spec_save_feeds_answer(&self, items: Seq<FeedView>, answer: Result<(), PortError>) -> bool {
        true
    }

    /// Whether `answer` is an answer this cache may give when asked to save
    /// the streams `items`.
    closed spec fn spec_save_streams_answer(&self, items: Seq<StreamView>, answer: Result<(), PortError>) -> bool {
        true
    }

    /// Whether `answer` is an answer this cache may give when asked to save
    /// the categories `items`.
    closed spec fn spec_save_categories_answer(&self, items: Seq<CategoryView>, answer: Result<(), PortError>) -> bool {
        true
    }

    /// Whether `answer` is an answer this cache may give when asked to save
    /// the countries `items`.
    closed spec fn spec_save_countries_answer(&self, items: Seq<CountryView>, answer: Result<(), PortError>) -> bool {
        true
    }

    /// Whether `answer` is an answer this cache may give when asked to save
    /// the languages `items`.
    closed spec fn spec_save_languages_answer(&self, items: Seq<LanguageView>, answer: Result<(), PortError>) -> bool {
        true
    }

    /// Whether `answer` is an answer this cache may give when asked to save
    /// the programs `items`.
    closed spec fn spec_save_programs_answer(&self, items: Seq<ProgramView>, answer: Result<(), PortError>) -> bool {
        true
    }

    fn save_channels(&self, channels: &Channels) -> (r: Result<(), PortError>)
        ensures
            self.spec_save_channels_answer(channels.deep_view(), r),
    ;

    fn load_channels(&self) -> Result<Channels, PortError>;

    fn save_feeds(&self, feeds: &Feeds) -> (r: Result<(), PortError>)
        ensures
            self.spec_save_feeds_answer(feeds.deep_view(), r),
    ;

    fn load_feeds(&self) -> Result<Feeds, PortError>;

    fn save_streams(&self, streams: &Streams) -> (r: Result<(), PortError>)
        ensures
            self.spec_save_streams_answer(streams.deep_view(), r),
    ;

    fn load_streams(&self) -> Result<Streams, PortError>;

    fn save_categories(&self, categories: &Categories) -> (r: Result<(), PortError>)
        ensures
            self.spec_save_categories_answer(categories.deep_view(), r),
    ;

    fn load_categories(&self) -> Result<Categories, PortError>;

    fn save_countries(&self, countries: &Countries) -> (r: Result<(), PortError>)
        ensures
            self.spec_save_countries_answer(countries.deep_view(), r),
    ;

    fn load_countries(&self) -> Result<Countries, PortError>;

    fn save_languages(&self, languages: &Languages) -> (r: Result<(), PortError>)
        ensures
            self.spec_save_languages_answer(languages.deep_view(), r),
    ;

    fn load_languages(&self) -> Result<Languages, PortError>;

    fn save_programs(&self, programs: &Programs) -> (r: Result<(), PortError>)
        ensures
            self.spec_save_programs_answer(programs.deep_view(), r),
    ;

    fn load_programs(&self) -> Result<Programs, PortError>;
}

/// A store for user data (favorites, settings) that must survive catalog
/// refreshes.
pub trait PersistenceStore {
    /// The value stored under `key`.
    fn get<T: Into<String>>(&self, key: T) -> Result<String, PortError>;

    /// Stores `value` under `key`.
    fn set<T: Into<String>>(&self, key: T, value: T) -> Result<(), PortError>;
}

/// The platform video player that the library drives.
///
/// Each command is tied to the answers the player may give to it, as the
/// `spec_*_answer` relations describe. A player that knows its answers states
/// them by overriding a relation; by default any answer may be given, so
/// nothing is promised of a player. The library's contracts speak of these
/// relations to say which command, with which argument, produced each answer
/// it acted on.
pub trait PlayerController {
    /// Whether `answer` is an answer this player may give when asked to load
    /// `stream`.
    closed spec fn spec_load_answer(&self, stream: StreamView, answer: Result<(), PortError>) -> bool {
        true
    }

    /// Whether `answer` is an answer this player may give when asked to start
    /// playing.
    closed spec fn spec_play_answer(&self, answer: Result<(), PortError>) -> bool {
        true
    }

    /// Whether `answer` is an answer this player may give when asked to pause.
    closed spec fn spec_pause_answer(&self, answer: Result<(), PortError>) -> bool {
        true
    }

    /// Whether `answer` is an answer this player may give when asked to stop.
    closed spec fn spec_stop_answer(&self, answer: Result<(), PortError>) -> bool {
        true
    }

    /// Whether `answer` is an answer this player may give when asked to seek
    /// to `position` seconds.
    closed spec fn spec_seek_answer(&self, position: u32, answer: Result<(), PortError>) -> bool {
        true
    }

    /// Loads a stream so that playback can begin.
    fn load(&self, stream: Stream) -> (r: Result<(), PortError>)
        ensures
            self.spec_load_answer(stream@, r),
    ;

    /// Starts playing the loaded stream.
    fn play(&self) -> (r: Result<(), PortError>)
        ensures
            self.spec_play_answer(r),
    ;

    /// Pauses the playing stream.
    fn pause(&self) -> (r: Result<(), PortError>)
        ensures
            self.spec_pause_answer(r),
    ;

    /// Stops the playing stream.
    fn stop(&self) -> (r: Result<(), PortError>)
        ensures
            self.spec_stop_answer(r),
    ;

    /// Seeks the playing stream to `position` seconds.
    fn seek_position(&self, position: u32) -> (r: Result<(), PortError>)
        ensures
            self.spec_seek_answer(position, r),
    ;
}

/// The playback events that the player side reports back to the library.
pub trait PlaybackListener {
    /// Playback of the loaded stream has started.
    fn on_playback_started(&mut self) -> Result<(), PortError>;

    /// Playback failed with the given error description.
    fn on_playback_failed(&mut self, error: &str) -> Result<(), PortError>;

    /// Playback ended.
    fn on_playback_stopped(&mut self) -> Result<(), PortError>;
}

} // verus!

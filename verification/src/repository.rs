//! The catalog repository: the boundary between the catalog logic and the
//! raw data. It holds the last published catalog snapshot and answers lookups
//! on it.
use crate::domain::{
    clone_categories, clone_channels, clone_countries, clone_feeds, clone_languages, clone_streams,
    Categories, Category, CategoryView, Channel, ChannelView, Channels, Countries, Country,
    CountryView, Feed, FeedView, Language,
    Feeds, LanguageView, Languages, Stream, StreamView, Streams,
};
use crate::ports::{CacheStore, ChannelDataSource, PortError};
use std::sync::Arc;
use vstd::prelude::*;

verus! {

// ----------------------------------------------------------------------------
// The mathematical model of the catalog
// ----------------------------------------------------------------------------

/// `id` names one of the channels.
pub open spec fn has_channel_id(chs: Seq<ChannelView>, id: Seq<char>) -> bool {
    exists|i: int| 0 <= i < chs.len() && #[trigger] chs[i].id == id
}

/// The position of the channel with identifier `id` (meaningful when
/// `has_channel_id(chs, id)`).
pub open spec fn channel_index(chs: Seq<ChannelView>, id: Seq<char>) -> int {
    choose|i: int| 0 <= i < chs.len() && #[trigger] chs[i].id == id
}

/// No two channels share an identifier.
pub open spec fn distinct_channel_ids(chs: Seq<ChannelView>) -> bool {
    forall|i: int, j: int|
        0 <= i < chs.len() && 0 <= j < chs.len() && i != j ==> #[trigger] chs[i].id
            != #[trigger] chs[j].id
}

/// The channel with identifier `id`, if there is one.
pub open spec fn channel_by_id(chs: Seq<ChannelView>, id: Seq<char>) -> Option<ChannelView> {
    if has_channel_id(chs, id) {
        Some(chs[channel_index(chs, id)])
    } else {
        None
    }
}

/// Inserts a channel keyed by its identifier: a channel with the same
/// identifier is replaced in place, otherwise the channel is appended.
pub open spec fn upsert_channel(chs: Seq<ChannelView>, c: ChannelView) -> Seq<ChannelView> {
    if has_channel_id(chs, c.id) {
        chs.update(channel_index(chs, c.id), c)
    } else {
        chs.push(c)
    }
}

/// Inserts the channels of `new`, in order, keyed by identifier.
pub open spec fn upsert_channels(chs: Seq<ChannelView>, new: Seq<ChannelView>) -> Seq<
    ChannelView,
>
    decreases new.len(),
{
    if new.len() == 0 {
        chs
    } else {
        upsert_channel(upsert_channels(chs, new.drop_last()), new.last())
    }
}

/// The feeds of the channel `channel_id`, in the order they are listed.
pub open spec fn feeds_of_channel(feeds: Seq<FeedView>, channel_id: Seq<char>) -> Seq<FeedView>
    decreases feeds.len(),
{
    if feeds.len() == 0 {
        Seq::empty()
    } else {
        let rest = feeds_of_channel(feeds.drop_last(), channel_id);
        if feeds.last().channel_id == channel_id {
            rest.push(feeds.last())
        } else {
            rest
        }
    }
}

/// The feed a stream belongs to; a stream with an empty feed identifier
/// belongs to no feed.
pub open spec fn stream_feed_key(s: StreamView) -> Option<Seq<char>> {
    if s.feed_id.len() == 0 {
        None
    } else {
        Some(s.feed_id)
    }
}

/// A feed identifier as a lookup key: the empty identifier means "no feed".
pub open spec fn normalized_feed_key(feed_id: Option<Seq<char>>) -> Option<Seq<char>> {
    match feed_id {
        Some(f) => if f.len() == 0 {
            None
        } else {
            Some(f)
        },
        None => None,
    }
}

/// The streams of channel `channel_id` that belong to the feed `key`, in
/// the order they are listed in.
pub open spec fn streams_of_key(
    streams: Seq<StreamView>,
    channel_id: Seq<char>,
    key: Option<Seq<char>>,
) -> Seq<StreamView>
    decreases streams.len(),
{
    if streams.len() == 0 {
        Seq::empty()
    } else {
        let rest = streams_of_key(streams.drop_last(), channel_id, key);
        if streams.last().channel_id == channel_id && stream_feed_key(streams.last()) == key {
            rest.push(streams.last())
        } else {
            rest
        }
    }
}

/// `None` for an empty sequence, the sequence otherwise.
pub open spec fn non_empty<T>(s: Seq<T>) -> Option<Seq<T>> {
    if s.len() > 0 {
        Some(s)
    } else {
        None
    }
}

// ----------------------------------------------------------------------------
// Lemmas on the model
// ----------------------------------------------------------------------------

proof fn lemma_feeds_of_channel_push(feeds: Seq<FeedView>, f: FeedView, channel_id: Seq<char>)
    ensures
        feeds_of_channel(feeds.push(f), channel_id) == if f.channel_id == channel_id {
            feeds_of_channel(feeds, channel_id).push(f)
        } else {
            feeds_of_channel(feeds, channel_id)
        },
{
    assert(feeds.push(f).drop_last() =~= feeds);
}

proof fn lemma_feeds_of_absent_channel(feeds: Seq<FeedView>, channel_id: Seq<char>)
    requires
        forall|k: int| 0 <= k < feeds.len() ==> #[trigger] feeds[k].channel_id != channel_id,
    ensures
        feeds_of_channel(feeds, channel_id) == Seq::<FeedView>::empty(),
    decreases feeds.len(),
{
    if feeds.len() > 0 {
        lemma_feeds_of_absent_channel(feeds.drop_last(), channel_id);
    }
}

proof fn lemma_streams_of_key_push(
    streams: Seq<StreamView>,
    s: StreamView,
    channel_id: Seq<char>,
    key: Option<Seq<char>>,
)
    ensures
        streams_of_key(streams.push(s), channel_id, key) == if s.channel_id == channel_id
            && stream_feed_key(s) == key {
            streams_of_key(streams, channel_id, key).push(s)
        } else {
            streams_of_key(streams, channel_id, key)
        },
{
    assert(streams.push(s).drop_last() =~= streams);
}

proof fn lemma_streams_of_absent_key(
    streams: Seq<StreamView>,
    channel_id: Seq<char>,
    key: Option<Seq<char>>,
)
    requires
        forall|k: int|
            0 <= k < streams.len() ==> !(#[trigger] streams[k].channel_id == channel_id
                && stream_feed_key(streams[k]) == key),
    ensures
        streams_of_key(streams, channel_id, key) == Seq::<StreamView>::empty(),
    decreases streams.len(),
{
    if streams.len() > 0 {
        lemma_streams_of_absent_key(streams.drop_last(), channel_id, key);
    }
}

proof fn lemma_upsert_channel_distinct(chs: Seq<ChannelView>, c: ChannelView)
    requires
        distinct_channel_ids(chs),
    ensures
        distinct_channel_ids(upsert_channel(chs, c)),
        has_channel_id(upsert_channel(chs, c), c.id),
{
    let r = upsert_channel(chs, c);
    if has_channel_id(chs, c.id) {
        let k = channel_index(chs, c.id);
        assert(r[k].id == c.id);
    } else {
        assert(r[chs.len() as int].id == c.id);
    }
}

// ----------------------------------------------------------------------------
// Executable indexes
// ----------------------------------------------------------------------------

/// The feeds of one channel.
pub struct FeedGroup {
    pub channel_id: String,
    pub feeds: Vec<Feed>,
}

impl DeepView for FeedGroup {
    type V = (Seq<char>, Seq<FeedView>);

    open spec fn deep_view(&self) -> (Seq<char>, Seq<FeedView>) {
        (self.channel_id@, self.feeds.deep_view())
    }
}

/// The streams of one (channel, feed) pair; `feed_id` is `None` for the
/// streams that belong to no feed.
pub struct StreamGroup {
    pub channel_id: String,
    pub feed_id: Option<String>,
    pub streams: Vec<Stream>,
}

impl DeepView for StreamGroup {
    type V = (Seq<char>, Option<Seq<char>>, Seq<StreamView>);

    open spec fn deep_view(&self) -> (Seq<char>, Option<Seq<char>>, Seq<StreamView>) {
        (self.channel_id@, self.feed_id.deep_view(), self.streams.deep_view())
    }
}

/// The feeds of a snapshot grouped by channel, one group per channel that has
/// feeds.
pub open spec fn feed_groups_index(
    groups: Seq<(Seq<char>, Seq<FeedView>)>,
    feeds: Seq<FeedView>,
) -> bool {
    &&& forall|i: int, j: int|
        0 <= i < groups.len() && 0 <= j < groups.len() && i != j ==> #[trigger] groups[i].0
            != #[trigger] groups[j].0
    &&& forall|i: int|
        0 <= i < groups.len() ==> #[trigger] groups[i].1 == feeds_of_channel(feeds, groups[i].0)
            && groups[i].1.len() > 0
    &&& forall|k: int|
        0 <= k < feeds.len() ==> exists|i: int|
            0 <= i < groups.len() && #[trigger] groups[i].0 == #[trigger] feeds[k].channel_id
}

/// The streams of a snapshot grouped by (channel, feed), one group per pair
/// that has streams.
pub open spec fn stream_groups_index(
    groups: Seq<(Seq<char>, Option<Seq<char>>, Seq<StreamView>)>,
    streams: Seq<StreamView>,
) -> bool {
    &&& forall|i: int, j: int|
        0 <= i < groups.len() && 0 <= j < groups.len() && i != j ==> !(#[trigger] groups[i].0
            == #[trigger] groups[j].0 && groups[i].1 == groups[j].1)
    &&& forall|i: int|
        0 <= i < groups.len() ==> #[trigger] groups[i].2 == streams_of_key(
            streams,
            groups[i].0,
            groups[i].1,
        ) && groups[i].2.len() > 0
    &&& forall|k: int|
        0 <= k < streams.len() ==> exists|i: int|
            0 <= i < groups.len() && #[trigger] groups[i].0 == #[trigger] streams[k].channel_id
                && groups[i].1 == stream_feed_key(streams[k])
}

/// Whether two optional strings are equal.
fn option_string_eq(a: &Option<String>, b: &Option<String>) -> (r: bool)
    ensures
        r == (a.deep_view() == b.deep_view()),
{
    match (a, b) {
        (Some(x), Some(y)) => *x == *y,
        (None, None) => true,
        _ => false,
    }
}

/// Groups the feeds of a snapshot by channel.
pub fn group_feeds(feeds: &Vec<Feed>) -> (groups: Vec<FeedGroup>)
    ensures
        feed_groups_index(groups.deep_view(), feeds.deep_view()),
{
    let ghost all = feeds.deep_view();
    let mut groups: Vec<FeedGroup> = Vec::new();
    let n = feeds.len();
    for k in 0..n
        invariant
            n == feeds.len(),
            all == feeds.deep_view(),
            feed_groups_index(groups.deep_view(), all.take(k as int)),
    {
        let ghost prefix = all.take(k as int);
        let ghost old_groups = groups.deep_view();
        assert(all.take(k + 1) =~= prefix.push(all[k as int]));
        let f = feeds[k].clone();
        let gn = groups.len();
        let mut found = false;
        let mut gi: usize = 0;
        while gi < gn && !found
            invariant
                gn == groups.len(),
                groups.deep_view() == old_groups,
                0 <= gi <= gn,
                forall|j: int| 0 <= j < gi ==> #[trigger] old_groups[j].0 != f@.channel_id,
                found ==> gi < gn && old_groups[gi as int].0 == f@.channel_id,
            decreases gn - gi + (if found { 0int } else { 1int }),
        {
            if groups[gi].channel_id == f.channel_id {
                found = true;
            } else {
                gi = gi + 1;
            }
        }
        proof {
            lemma_feeds_of_channel_push(prefix, f@, f@.channel_id);
            assert forall|i: int| 0 <= i < old_groups.len() && old_groups[i].0 != f@.channel_id
                implies feeds_of_channel(prefix.push(f@), old_groups[i].0) == old_groups[i].1 by {
                lemma_feeds_of_channel_push(prefix, f@, old_groups[i].0);
            }
        }
        if found {
            groups[gi].feeds.push(f);
            proof {
                let ng = groups.deep_view();
                assert forall|i: int| 0 <= i < ng.len() implies #[trigger] ng[i]
                    == if i == gi as int {
                    (old_groups[i].0, old_groups[i].1.push(f@))
                } else {
                    old_groups[i]
                } by {}
                assert forall|j: int| 0 <= j < prefix.len() + 1 implies exists|i: int|
                    0 <= i < ng.len() && #[trigger] ng[i].0 == #[trigger] prefix.push(
                        f@,
                    )[j].channel_id by {
                    if j < prefix.len() {
                        let i = choose|i: int|
                            0 <= i < old_groups.len() && #[trigger] old_groups[i].0
                                == #[trigger] prefix[j].channel_id;
                        assert(ng[i].0 == old_groups[i].0);
                    } else {
                        assert(ng[gi as int].0 == f@.channel_id);
                    }
                }
            }
        } else {
            let mut fs: Vec<Feed> = Vec::new();
            let key = f.channel_id.clone();
            fs.push(f);
            groups.push(FeedGroup { channel_id: key, feeds: fs });
            proof {
                let ng = groups.deep_view();
                assert forall|j: int| 0 <= j < prefix.len() implies #[trigger] prefix[j].channel_id
                    != f@.channel_id by {
                    let i = choose|i: int|
                        0 <= i < old_groups.len() && #[trigger] old_groups[i].0
                            == #[trigger] prefix[j].channel_id;
                }
                lemma_feeds_of_absent_channel(prefix, f@.channel_id);
                assert(fs@.len() == 1);
                assert(ng[gn as int].1 =~= Seq::<FeedView>::empty().push(f@));
                assert forall|i: int| 0 <= i < old_groups.len() implies #[trigger] ng[i]
                    == old_groups[i] by {}
                assert forall|j: int| 0 <= j < prefix.len() + 1 implies exists|i: int|
                    0 <= i < ng.len() && #[trigger] ng[i].0 == #[trigger] prefix.push(
                        f@,
                    )[j].channel_id by {
                    if j < prefix.len() {
                        let i = choose|i: int|
                            0 <= i < old_groups.len() && #[trigger] old_groups[i].0
                                == #[trigger] prefix[j].channel_id;
                        assert(ng[i].0 == old_groups[i].0);
                    } else {
                        assert(ng[gn as int].0 == f@.channel_id);
                    }
                }
            }
        }
    }
    assert(all.take(n as int) =~= all);
    groups
}

/// The key under which a stream is grouped: `None` for an empty feed
/// identifier.
fn stream_key_of(s: &Stream) -> (r: Option<String>)
    ensures
        r.deep_view() == stream_feed_key(s@),
{
    if s.feed_id.as_str().is_empty() {
        None
    } else {
        Some(s.feed_id.clone())
    }
}

/// Groups the streams of a snapshot by (channel, feed).
pub fn group_streams(streams: &Vec<Stream>) -> (groups: Vec<StreamGroup>)
    ensures
        stream_groups_index(groups.deep_view(), streams.deep_view()),
{
    let ghost all = streams.deep_view();
    let mut groups: Vec<StreamGroup> = Vec::new();
    let n = streams.len();
    for k in 0..n
        invariant
            n == streams.len(),
            all == streams.deep_view(),
            stream_groups_index(groups.deep_view(), all.take(k as int)),
    {
        let ghost prefix = all.take(k as int);
        let ghost old_groups = groups.deep_view();
        assert(all.take(k + 1) =~= prefix.push(all[k as int]));
        let s = streams[k].clone();
        let key = stream_key_of(&s);
        let ghost ks = stream_feed_key(s@);
        let gn = groups.len();
        let mut found = false;
        let mut gi: usize = 0;
        while gi < gn && !found
            invariant
                gn == groups.len(),
                groups.deep_view() == old_groups,
                key.deep_view() == ks,
                0 <= gi <= gn,
                forall|j: int|
                    0 <= j < gi ==> !(#[trigger] old_groups[j].0 == s@.channel_id
                        && old_groups[j].1 == ks),
                found ==> gi < gn && old_groups[gi as int].0 == s@.channel_id
                    && old_groups[gi as int].1 == ks,
            decreases gn - gi + (if found { 0int } else { 1int }),
        {
            if groups[gi].channel_id == s.channel_id && option_string_eq(&groups[gi].feed_id, &key) {
                found = true;
            } else {
                gi = gi + 1;
            }
        }
        proof {
            lemma_streams_of_key_push(prefix, s@, s@.channel_id, ks);
            assert forall|i: int|
                0 <= i < old_groups.len() && !(old_groups[i].0 == s@.channel_id
                    && old_groups[i].1 == ks) implies streams_of_key(
                prefix.push(s@),
                old_groups[i].0,
                old_groups[i].1,
            ) == old_groups[i].2 by {
                lemma_streams_of_key_push(prefix, s@, old_groups[i].0, old_groups[i].1);
            }
        }
        if found {
            groups[gi].streams.push(s);
            proof {
                let ng = groups.deep_view();
                assert forall|i: int| 0 <= i < ng.len() implies #[trigger] ng[i]
                    == if i == gi as int {
                    (old_groups[i].0, old_groups[i].1, old_groups[i].2.push(s@))
                } else {
                    old_groups[i]
                } by {}
                assert forall|j: int| 0 <= j < prefix.len() + 1 implies exists|i: int|
                    0 <= i < ng.len() && #[trigger] ng[i].0 == #[trigger] prefix.push(
                        s@,
                    )[j].channel_id && ng[i].1 == stream_feed_key(prefix.push(s@)[j]) by {
                    if j < prefix.len() {
                        let i = choose|i: int|
                            0 <= i < old_groups.len() && #[trigger] old_groups[i].0
                                == #[trigger] prefix[j].channel_id && old_groups[i].1
                                == stream_feed_key(prefix[j]);
                        assert(ng[i].0 == old_groups[i].0);
                    } else {
                        assert(ng[gi as int].0 == s@.channel_id);
                    }
                }
            }
        } else {
            let mut ss: Vec<Stream> = Vec::new();
            let cid = s.channel_id.clone();
            ss.push(s);
            groups.push(StreamGroup { channel_id: cid, feed_id: key, streams: ss });
            proof {
                let ng = groups.deep_view();
                assert forall|j: int| 0 <= j < prefix.len() implies !(#[trigger] prefix[j].channel_id
                    == s@.channel_id && stream_feed_key(prefix[j]) == ks) by {
                    let i = choose|i: int|
                        0 <= i < old_groups.len() && #[trigger] old_groups[i].0
                            == #[trigger] prefix[j].channel_id && old_groups[i].1
                            == stream_feed_key(prefix[j]);
                }
                lemma_streams_of_absent_key(prefix, s@.channel_id, ks);
                assert(ng[gn as int].2 =~= Seq::<StreamView>::empty().push(s@));
                assert forall|i: int| 0 <= i < old_groups.len() implies #[trigger] ng[i]
                    == old_groups[i] by {}
                assert forall|j: int| 0 <= j < prefix.len() + 1 implies exists|i: int|
                    0 <= i < ng.len() && #[trigger] ng[i].0 == #[trigger] prefix.push(
                        s@,
                    )[j].channel_id && ng[i].1 == stream_feed_key(prefix.push(s@)[j]) by {
                    if j < prefix.len() {
                        let i = choose|i: int|
                            0 <= i < old_groups.len() && #[trigger] old_groups[i].0
                                == #[trigger] prefix[j].channel_id && old_groups[i].1
                                == stream_feed_key(prefix[j]);
                        assert(ng[i].0 == old_groups[i].0);
                    } else {
                        assert(ng[gn as int].0 == s@.channel_id);
                    }
                }
            }
        }
    }
    assert(all.take(n as int) =~= all);
    groups
}

/// Inserts `c` into `channels` keyed by its identifier: a channel with the
/// same identifier is replaced in place, otherwise `c` is appended.
fn upsert_channel_exec(channels: &mut Vec<Channel>, c: Channel)
    requires
        distinct_channel_ids(old(channels).deep_view()),
    ensures
        final(channels).deep_view() == upsert_channel(old(channels).deep_view(), c@),
        distinct_channel_ids(final(channels).deep_view()),
{
    let ghost chs = channels.deep_view();
    let n = channels.len();
    let mut found = false;
    let mut i: usize = 0;
    while i < n && !found
        invariant
            n == channels.len(),
            chs == channels.deep_view(),
            0 <= i <= n,
            forall|j: int| 0 <= j < i ==> #[trigger] chs[j].id != c@.id,
            found ==> i < n && chs[i as int].id == c@.id,
        decreases n - i + (if found { 0int } else { 1int }),
    {
        if channels[i].id == c.id {
            found = true;
        } else {
            i = i + 1;
        }
    }
    proof {
        lemma_upsert_channel_distinct(chs, c@);
    }
    if found {
        proof {
            assert(chs[i as int].id == c@.id);
            let k = channel_index(chs, c@.id);
            assert(chs[k].id == c@.id);
        }
        channels.set(i, c);
        proof {
            assert(channels.deep_view() =~= chs.update(i as int, c@));
        }
    } else {
        channels.push(c);
        proof {
            assert(channels.deep_view() =~= chs.push(c@));
        }
    }
}

/// Inserts every channel of `new`, in order, keyed by identifier.
fn upsert_channels_exec(channels: &mut Vec<Channel>, new: &Vec<Channel>)
    requires
        distinct_channel_ids(old(channels).deep_view()),
    ensures
        final(channels).deep_view() == upsert_channels(old(channels).deep_view(), new.deep_view()),
        distinct_channel_ids(final(channels).deep_view()),
{
    let ghost start = channels.deep_view();
    let ghost all = new.deep_view();
    let n = new.len();
    for k in 0..n
        invariant
            n == new.len(),
            all == new.deep_view(),
            channels.deep_view() == upsert_channels(start, all.take(k as int)),
            distinct_channel_ids(channels.deep_view()),
    {
        let c = new[k].clone();
        upsert_channel_exec(channels, c);
        proof {
            assert(all.take(k + 1).drop_last() =~= all.take(k as int));
        }
    }
    assert(all.take(n as int) =~= all);
}

/// The whole catalog as the repository publishes it.
pub struct CatalogState {
    pub channels: Seq<ChannelView>,
    pub feeds: Seq<FeedView>,
    pub streams: Seq<StreamView>,
    pub categories: Seq<CategoryView>,
    pub countries: Seq<CountryView>,
    pub languages: Seq<LanguageView>,
}

/// The catalog as fetched from a data source in one go.
pub struct CatalogSnapshot {
    pub channels: Channels,
    pub feeds: Feeds,
    pub streams: Streams,
    pub countries: Countries,
    pub categories: Categories,
    pub languages: Languages,
}

pub struct CatalogSnapshotView {
    pub channels: Seq<ChannelView>,
    pub feeds: Seq<FeedView>,
    pub streams: Seq<StreamView>,
    pub countries: Seq<CountryView>,
    pub categories: Seq<CategoryView>,
    pub languages: Seq<LanguageView>,
}

impl View for CatalogSnapshot {
    type V = CatalogSnapshotView;

    open spec fn view(&self) -> CatalogSnapshotView {
        CatalogSnapshotView {
            channels: self.channels.deep_view(),
            feeds: self.feeds.deep_view(),
            streams: self.streams.deep_view(),
            countries: self.countries.deep_view(),
            categories: self.categories.deep_view(),
            languages: self.languages.deep_view(),
        }
    }
}

/// Which parts of a snapshot the cache accepted.
#[derive(Debug, Clone, Copy, PartialEq, Eq, Structural)]
pub struct CacheSaveResults {
    pub channels: bool,
    pub feeds: bool,
    pub streams: bool,
    pub categories: bool,
    pub countries: bool,
    pub languages: bool,
}

/// The catalog after a refresh with `snap`: each part that the cache accepted
/// is published, the others are kept. Channels are merged by identifier; the
/// other parts are replaced wholesale.
pub open spec fn refreshed(
    old: CatalogState,
    snap: CatalogSnapshotView,
    saved: CacheSaveResults,
) -> CatalogState {
    CatalogState {
        channels: if saved.channels {
            upsert_channels(old.channels, snap.channels)
        } else {
            old.channels
        },
        feeds: if saved.feeds {
            snap.feeds
        } else {
            old.feeds
        },
        streams: if saved.streams {
            snap.streams
        } else {
            old.streams
        },
        categories: if saved.categories {
            snap.categories
        } else {
            old.categories
        },
        countries: if saved.countries {
            snap.countries
        } else {
            old.countries
        },
        languages: if saved.languages {
            snap.languages
        } else {
            old.languages
        },
    }
}

/// The state of a repository that holds nothing yet.
pub open spec fn empty_catalog() -> CatalogState {
    CatalogState {
        channels: Seq::empty(),
        feeds: Seq::empty(),
        streams: Seq::empty(),
        categories: Seq::empty(),
        countries: Seq::empty(),
        languages: Seq::empty(),
    }
}

/// Read access to the catalog data. Each lookup is a function of the
/// repository's state and its arguments, named by the `spec_` functions; an
/// implementation states what its lookups return by overriding them.
pub trait CatalogRepository: Sized {
    closed spec fn spec_channels(&self) -> Seq<ChannelView> {
        arbitrary()
    }

    closed spec fn spec_channel_by_id(&self, channel_id: Seq<char>) -> Option<ChannelView> {
        arbitrary()
    }

    closed spec fn spec_feeds_by_channel(&self, channel_id: Seq<char>) -> Option<Seq<FeedView>> {
        arbitrary()
    }

    closed spec fn spec_candidate_streams(
        &self,
        channel_id: Seq<char>,
        feed_id: Option<Seq<char>>,
    ) -> Option<Seq<StreamView>> {
        arbitrary()
    }

    closed spec fn spec_categories(&self) -> Seq<CategoryView> {
        arbitrary()
    }

    closed spec fn spec_countries(&self) -> Seq<CountryView> {
        arbitrary()
    }

    closed spec fn spec_languages(&self) -> Seq<LanguageView> {
        arbitrary()
    }

    /// All channels in this repository.
    fn get_channels(&self) -> (r: Channels)
        ensures
            r.deep_view() == self.spec_channels(),
    ;

    /// The channel with the given identifier.
    fn get_channel_by_id(&self, channel_id: &str) -> (r: Option<Channel>)
        ensures
            r.deep_view() == self.spec_channel_by_id(channel_id@),
    ;

    /// All feeds of a channel.
    fn get_feeds_by_channel(&self, channel_id: &str) -> (r: Option<Feeds>)
        ensures
            r.deep_view() == self.spec_feeds_by_channel(channel_id@),
    ;

    /// The streams of a channel that belong to the given feed (`None`: to no
    /// feed).
    fn get_candidate_streams(&self, channel_id: &str, feed_id: Option<&str>) -> (r: Option<
        Streams,
    >)
        ensures
            r.deep_view() == self.spec_candidate_streams(channel_id@, feed_id.deep_view()),
    ;

    /// All categories.
    fn get_categories(&self) -> (r: Categories)
        ensures
            r.deep_view() == self.spec_categories(),
    ;

    /// All countries.
    fn get_countries(&self) -> (r: Countries)
        ensures
            r.deep_view() == self.spec_countries(),
    ;

    /// All languages.
    fn get_languages(&self) -> (r: Languages)
        ensures
            r.deep_view() == self.spec_languages(),
    ;

    /// Whether `after` is a state this repository can be left in by one
    /// refresh. An implementation states what its refresh does by overriding
    /// this.
    closed spec fn spec_refreshes_to(&self, after: Self) -> bool {
        arbitrary()
    }

    /// Reloads the data from the data sources.
    fn refresh(&mut self)
        ensures
            old(self).spec_refreshes_to(*final(self)),
    ;
}

struct FeedIndex {
    groups: Vec<FeedGroup>,
    feeds: Ghost<Seq<FeedView>>,
}

struct StreamIndex {
    groups: Vec<StreamGroup>,
    streams: Ghost<Seq<StreamView>>,
}

/// The repository over a data source and a cache: it publishes what the cache
/// accepted and answers lookups from indexes built at publication.
pub struct IptvCatalogRepository<D: ChannelDataSource, C: CacheStore> {
    data_source: Arc<D>,
    cache: Arc<C>,
    channels: Vec<Channel>,
    feed_index: FeedIndex,
    stream_index: StreamIndex,
    categories: Vec<Category>,
    countries: Vec<Country>,
    languages: Vec<Language>,
}

impl<D: ChannelDataSource, C: CacheStore> View for IptvCatalogRepository<D, C> {
    type V = CatalogState;

    open spec fn view(&self) -> CatalogState {
        self.state()
    }
}

impl<D: ChannelDataSource, C: CacheStore> IptvCatalogRepository<D, C> {
    #[verifier::type_invariant]
    spec fn well_formed(self) -> bool {
        &&& distinct_channel_ids(self.channels.deep_view())
        &&& feed_groups_index(self.feed_index.groups.deep_view(), self.feed_index.feeds@)
        &&& stream_groups_index(self.stream_index.groups.deep_view(), self.stream_index.streams@)
    }

    pub closed spec fn state(&self) -> CatalogState {
        CatalogState {
            channels: self.channels.deep_view(),
            feeds: self.feed_index.feeds@,
            streams: self.stream_index.streams@,
            categories: self.categories.deep_view(),
            countries: self.countries.deep_view(),
            languages: self.languages.deep_view(),
        }
    }

    /// The data source this repository reads from.
    pub closed spec fn source(&self) -> Arc<D> {
        self.data_source
    }

    /// The cache this repository saves snapshots to.
    pub closed spec fn cache_store(&self) -> Arc<C> {
        self.cache
    }

    /// A repository over `data_source` and `cache` that holds nothing until
    /// the first refresh.
    pub fn new(data_source: Arc<D>, cache: Arc<C>) -> (r: Self)
        ensures
            r@ == empty_catalog(),
            r.source() == data_source,
            r.cache_store() == cache,
    {
        let r = IptvCatalogRepository {
            data_source,
            cache,
            channels: Vec::new(),
            feed_index: FeedIndex { groups: Vec::new(), feeds: Ghost(Seq::empty()) },
            stream_index: StreamIndex { groups: Vec::new(), streams: Ghost(Seq::empty()) },
            categories: Vec::new(),
            countries: Vec::new(),
            languages: Vec::new(),
        };
        proof {
            assert(r.channels.deep_view() =~= Seq::<ChannelView>::empty());
            assert(r.categories.deep_view() =~= Seq::<CategoryView>::empty());
            assert(r.countries.deep_view() =~= Seq::<CountryView>::empty());
            assert(r.languages.deep_view() =~= Seq::<LanguageView>::empty());
        }
        r
    }

    /// Publishes the parts of `snapshot` that the cache accepted, as recorded
    /// in `saved`.
    pub fn apply_refresh(&mut self, snapshot: CatalogSnapshot, saved: CacheSaveResults)
        ensures
            final(self)@ == refreshed(old(self)@, snapshot@, saved),
            final(self).source() == old(self).source(),
            final(self).cache_store() == old(self).cache_store(),
    {
        proof {
            use_type_invariant(&*self);
        }
        if saved.channels {
            let mut chs: Vec<Channel> = Vec::new();
            std::mem::swap(&mut chs, &mut self.channels);
            upsert_channels_exec(&mut chs, &snapshot.channels);
            self.channels = chs;
        }
        if saved.feeds {
            let groups = group_feeds(&snapshot.feeds);
            self.feed_index = FeedIndex { groups, feeds: Ghost(snapshot.feeds.deep_view()) };
        }
        if saved.streams {
            let groups = group_streams(&snapshot.streams);
            self.stream_index = StreamIndex {
                groups,
                streams: Ghost(snapshot.streams.deep_view()),
            };
        }
        if saved.categories {
            self.categories = snapshot.categories;
        }
        if saved.countries {
            self.countries = snapshot.countries;
        }
        if saved.languages {
            self.languages = snapshot.languages;
        }
    }
}

/// The items of a fetch that succeeded; nothing for one that failed.
pub open spec fn fetched_view<T: DeepView>(fetched: Result<Vec<T>, PortError>) -> Seq<T::V> {
    match fetched {
        Ok(v) => v.deep_view(),
        Err(_) => Seq::empty(),
    }
}

/// What a fetch gave, or nothing when it failed.
pub fn fetched_or_empty<T: DeepView>(fetched: Result<Vec<T>, PortError>) -> (r: Vec<T>)
    ensures
        r.deep_view() == fetched_view(fetched),
        match fetched {
            Ok(v) => r == v,
            Err(_) => r@ == Seq::<T>::empty(),
        },
{
    match fetched {
        Ok(v) => v,
        Err(_) => {
            let r: Vec<T> = Vec::new();
            assert(r.deep_view() =~= Seq::<T::V>::empty());
            r
        },
    }
}

/// The snapshot made of the answers of the six fetches: each part is what
/// its fetch gave, or empty when that fetch failed, whatever the other
/// fetches gave.
pub fn snapshot_of(
    channels: Result<Channels, PortError>,
    feeds: Result<Feeds, PortError>,
    streams: Result<Streams, PortError>,
    countries: Result<Countries, PortError>,
    categories: Result<Categories, PortError>,
    languages: Result<Languages, PortError>,
) -> (s: CatalogSnapshot)
    ensures
        s@ == (CatalogSnapshotView {
            channels: fetched_view(channels),
            feeds: fetched_view(feeds),
            streams: fetched_view(streams),
            countries: fetched_view(countries),
            categories: fetched_view(categories),
            languages: fetched_view(languages),
        }),
{
    CatalogSnapshot {
        channels: fetched_or_empty(channels),
        feeds: fetched_or_empty(feeds),
        streams: fetched_or_empty(streams),
        countries: fetched_or_empty(countries),
        categories: fetched_or_empty(categories),
        languages: fetched_or_empty(languages),
    }
}

/// Which parts the cache accepted, from its answers to the six saves: a part
/// is accepted exactly when its save succeeded.
pub fn save_results_of(
    channels: &Result<(), PortError>,
    feeds: &Result<(), PortError>,
    streams: &Result<(), PortError>,
    categories: &Result<(), PortError>,
    countries: &Result<(), PortError>,
    languages: &Result<(), PortError>,
) -> (r: CacheSaveResults)
    ensures
        r.channels == channels is Ok,
        r.feeds == feeds is Ok,
        r.streams == streams is Ok,
        r.categories == categories is Ok,
        r.countries == countries is Ok,
        r.languages == languages is Ok,
{
    CacheSaveResults {
        channels: channels.is_ok(),
        feeds: feeds.is_ok(),
        streams: streams.is_ok(),
        categories: categories.is_ok(),
        countries: countries.is_ok(),
        languages: languages.is_ok(),
    }
}

/// The answers of the six fetches of a refresh.
pub struct FetchAnswers {
    pub channels: Result<Channels, PortError>,
    pub feeds: Result<Feeds, PortError>,
    pub streams: Result<Streams, PortError>,
    pub countries: Result<Countries, PortError>,
    pub categories: Result<Categories, PortError>,
    pub languages: Result<Languages, PortError>,
}

/// The answers of the six saves of a refresh.
pub struct SaveAnswers {
    pub channels: Result<(), PortError>,
    pub feeds: Result<(), PortError>,
    pub streams: Result<(), PortError>,
    pub categories: Result<(), PortError>,
    pub countries: Result<(), PortError>,
    pub languages: Result<(), PortError>,
}

/// The data source may give each of the answers `a` to the fetch it answers.
pub open spec fn source_may_answer<D: ChannelDataSource>(source: D, a: FetchAnswers) -> bool {
    &&& source.spec_channels_answer(a.channels)
    &&& source.spec_feeds_answer(a.feeds)
    &&& source.spec_streams_answer(a.streams)
    &&& source.spec_countries_answer(a.countries)
    &&& source.spec_categories_answer(a.categories)
    &&& source.spec_languages_answer(a.languages)
}

/// The snapshot made of the fetch answers `a` (what `snapshot_of` builds).
pub open spec fn snapshot_of_answers(a: FetchAnswers) -> CatalogSnapshotView {
    CatalogSnapshotView {
        channels: fetched_view(a.channels),
        feeds: fetched_view(a.feeds),
        streams: fetched_view(a.streams),
        countries: fetched_view(a.countries),
        categories: fetched_view(a.categories),
        languages: fetched_view(a.languages),
    }
}

/// The cache may give each of the answers `a` when asked to save the
/// corresponding part of `snap`.
pub open spec fn cache_may_answer<C: CacheStore>(
    cache: C,
    snap: CatalogSnapshotView,
    a: SaveAnswers,
) -> bool {
    &&& cache.spec_save_channels_answer(snap.channels, a.channels)
    &&& cache.spec_save_feeds_answer(snap.feeds, a.feeds)
    &&& cache.spec_save_streams_answer(snap.streams, a.streams)
    &&& cache.spec_save_categories_answer(snap.categories, a.categories)
    &&& cache.spec_save_countries_answer(snap.countries, a.countries)
    &&& cache.spec_save_languages_answer(snap.languages, a.languages)
}

/// Which parts the save answers `a` accept (what `save_results_of` reports).
pub open spec fn saved_of_answers(a: SaveAnswers) -> CacheSaveResults {
    CacheSaveResults {
        channels: a.channels is Ok,
        feeds: a.feeds is Ok,
        streams: a.streams is Ok,
        categories: a.categories is Ok,
        countries: a.countries is Ok,
        languages: a.languages is Ok,
    }
}

impl<D: ChannelDataSource, C: CacheStore> IptvCatalogRepository<D, C> {
    /// Fetches every part of the catalog from the data source and makes the
    /// snapshot of the answers (`snapshot_of`).
    fn fetch_catalog(&self) -> (snap: CatalogSnapshot)
        ensures
            exists|a: FetchAnswers|
                #[trigger] source_may_answer(*self.source(), a) && snap@ == snapshot_of_answers(a),
    {
        let channels = self.data_source.fetch_channels();
        let feeds = self.data_source.fetch_feeds();
        let streams = self.data_source.fetch_streams();
        let countries = self.data_source.fetch_countries();
        let categories = self.data_source.fetch_categories();
        let languages = self.data_source.fetch_languages();
        let ghost answers = FetchAnswers {
            channels,
            feeds,
            streams,
            countries,
            categories,
            languages,
        };
        let snap = snapshot_of(channels, feeds, streams, countries, categories, languages);
        assert(source_may_answer(*self.source(), answers));
        snap
    }

    /// Saves each part of `snapshot` to the cache and reports which saves
    /// succeeded (`save_results_of`).
    fn save_snapshot(&self, snapshot: &CatalogSnapshot) -> (saved: CacheSaveResults)
        ensures
            exists|a: SaveAnswers|
                #[trigger] cache_may_answer(*self.cache_store(), snapshot@, a) && saved
                    == saved_of_answers(a),
    {
        let channels = self.cache.save_channels(&snapshot.channels);
        let feeds = self.cache.save_feeds(&snapshot.feeds);
        let streams = self.cache.save_streams(&snapshot.streams);
        let categories = self.cache.save_categories(&snapshot.categories);
        let countries = self.cache.save_countries(&snapshot.countries);
        let languages = self.cache.save_languages(&snapshot.languages);
        let saved = save_results_of(&channels, &feeds, &streams, &categories, &countries, &languages);
        let ghost answers = SaveAnswers { channels, feeds, streams, categories, countries, languages };
        assert(cache_may_answer(*self.cache_store(), snapshot@, answers));
        saved
    }
}

impl<D: ChannelDataSource, C: CacheStore> CatalogRepository for IptvCatalogRepository<D, C> {
    open spec fn spec_channels(&self) -> Seq<ChannelView> {
        self@.channels
    }

    open spec fn spec_channel_by_id(&self, channel_id: Seq<char>) -> Option<ChannelView> {
        channel_by_id(self@.channels, channel_id)
    }

    open spec fn spec_feeds_by_channel(&self, channel_id: Seq<char>) -> Option<Seq<FeedView>> {
        non_empty(feeds_of_channel(self@.feeds, channel_id))
    }

    open spec fn spec_candidate_streams(
        &self,
        channel_id: Seq<char>,
        feed_id: Option<Seq<char>>,
    ) -> Option<Seq<StreamView>> {
        non_empty(streams_of_key(self@.streams, channel_id, normalized_feed_key(feed_id)))
    }

    open spec fn spec_categories(&self) -> Seq<CategoryView> {
        self@.categories
    }

    open spec fn spec_countries(&self) -> Seq<CountryView> {
        self@.countries
    }

    open spec fn spec_languages(&self) -> Seq<LanguageView> {
        self@.languages
    }

    /// A refresh publishes, of some fetched snapshot, the parts that the cache
    /// accepted, and keeps the same data source and cache.
    open spec fn spec_refreshes_to(&self, after: Self) -> bool {
        &&& exists|snap: CatalogSnapshotView, saved: CacheSaveResults|
            after@ == #[trigger] refreshed(self@, snap, saved)
        &&& exists|fetched: FetchAnswers, answers: SaveAnswers|
            #![trigger source_may_answer(*self.source(), fetched), cache_may_answer(*self.cache_store(), snapshot_of_answers(fetched), answers)]
            source_may_answer(*self.source(), fetched) && cache_may_answer(
                *self.cache_store(),
                snapshot_of_answers(fetched),
                answers,
            ) && after@ == refreshed(
                self@,
                snapshot_of_answers(fetched),
                saved_of_answers(answers),
            )
        &&& after.source() == self.source()
        &&& after.cache_store() == self.cache_store()
    }

    fn get_channels(&self) -> (r: Channels)
        ensures
            distinct_channel_ids(r.deep_view()),
    {
        proof {
            use_type_invariant(self);
        }
        clone_channels(&self.channels)
    }

    fn get_channel_by_id(&self, channel_id: &str) -> (r: Option<Channel>) {
        proof {
            use_type_invariant(self);
        }
        let key = channel_id.to_owned();
        let ghost chs = self.channels.deep_view();
        let n = self.channels.len();
        for i in 0..n
            invariant
                n == self.channels.len(),
                chs == self.channels.deep_view(),
                distinct_channel_ids(chs),
                key@ == channel_id@,
                forall|j: int| 0 <= j < i ==> #[trigger] chs[j].id != key@,
        {
            if self.channels[i].id == key {
                let c = self.channels[i].clone();
                proof {
                    assert(chs[i as int].id == key@);
                    assert(has_channel_id(chs, key@));
                    let k = channel_index(chs, key@);
                    assert(chs[k].id == key@);
                    assert(k == i);
                    assert(self@.channels == chs);
                }
                return Some(c);
            }
        }
        None
    }

    fn get_feeds_by_channel(&self, channel_id: &str) -> (r: Option<Feeds>) {
        proof {
            use_type_invariant(self);
        }
        let key = channel_id.to_owned();
        let ghost groups = self.feed_index.groups.deep_view();
        let ghost feeds = self.feed_index.feeds@;
        let n = self.feed_index.groups.len();
        for i in 0..n
            invariant
                n == self.feed_index.groups.len(),
                groups == self.feed_index.groups.deep_view(),
                feeds == self.feed_index.feeds@,
                feed_groups_index(groups, feeds),
                key@ == channel_id@,
                forall|j: int| 0 <= j < i ==> #[trigger] groups[j].0 != key@,
        {
            if self.feed_index.groups[i].channel_id == key {
                let fs = clone_feeds(&self.feed_index.groups[i].feeds);
                proof {
                    assert(groups[i as int].0 == key@);
                    assert(groups[i as int].1 == feeds_of_channel(feeds, key@));
                    assert(self@.feeds == feeds);
                }
                return Some(fs);
            }
        }
        proof {
            assert forall|k: int| 0 <= k < feeds.len() implies #[trigger] feeds[k].channel_id
                != key@ by {
                let i = choose|i: int|
                    0 <= i < groups.len() && #[trigger] groups[i].0 == #[trigger] feeds[k].channel_id;
            }
            lemma_feeds_of_absent_channel(feeds, key@);
        }
        None
    }

    fn get_candidate_streams(&self, channel_id: &str, feed_id: Option<&str>) -> (r: Option<
        Streams,
    >) {
        proof {
            use_type_invariant(self);
        }
        let cid = channel_id.to_owned();
        let key: Option<String> = match feed_id {
            Some(f) => if f.is_empty() {
                None
            } else {
                Some(f.to_owned())
            },
            None => None,
        };
        let ghost ks = normalized_feed_key(feed_id.deep_view());
        assert(key.deep_view() == ks);
        let ghost groups = self.stream_index.groups.deep_view();
        let ghost streams = self.stream_index.streams@;
        let n = self.stream_index.groups.len();
        for i in 0..n
            invariant
                n == self.stream_index.groups.len(),
                groups == self.stream_index.groups.deep_view(),
                streams == self.stream_index.streams@,
                stream_groups_index(groups, streams),
                cid@ == channel_id@,
                key.deep_view() == ks,
                ks == normalized_feed_key(feed_id.deep_view()),
                forall|j: int| 0 <= j < i ==> !(#[trigger] groups[j].0 == cid@ && groups[j].1 == ks),
        {
            if self.stream_index.groups[i].channel_id == cid && option_string_eq(
                &self.stream_index.groups[i].feed_id,
                &key,
            ) {
                let ss = clone_streams(&self.stream_index.groups[i].streams);
                proof {
                    assert(groups[i as int].0 == cid@ && groups[i as int].1 == ks);
                    assert(groups[i as int].2 == streams_of_key(streams, cid@, ks));
                    assert(self@.streams == streams);
                }
                return Some(ss);
            }
        }
        proof {
            assert forall|k: int| 0 <= k < streams.len() implies !(#[trigger] streams[k].channel_id
                == cid@ && stream_feed_key(streams[k]) == ks) by {
                let i = choose|i: int|
                    0 <= i < groups.len() && #[trigger] groups[i].0 == #[trigger] streams[k].channel_id
                        && groups[i].1 == stream_feed_key(streams[k]);
            }
            lemma_streams_of_absent_key(streams, cid@, ks);
        }
        None
    }

    fn get_categories(&self) -> (r: Categories) {
        clone_categories(&self.categories)
    }

    fn get_countries(&self) -> (r: Countries) {
        clone_countries(&self.countries)
    }

    fn get_languages(&self) -> (r: Languages) {
        clone_languages(&self.languages)
    }

    /// Fetches a fresh snapshot from the data source, saves each part to the
    /// cache and publishes the parts that were saved.
    fn refresh(&mut self) {
        let snapshot = self.fetch_catalog();
        let saved = self.save_snapshot(&snapshot);
        let ghost snap = snapshot@;
        self.apply_refresh(snapshot, saved);
        proof {
            let fetched = choose|a: FetchAnswers|
                #[trigger] source_may_answer(*old(self).source(), a) && snap
                    == snapshot_of_answers(a);
            let answers = choose|a: SaveAnswers|
                #[trigger] cache_may_answer(*old(self).cache_store(), snap, a) && saved
                    == saved_of_answers(a);
            assert(self@ == refreshed(old(self)@, snapshot_of_answers(fetched), saved_of_answers(answers)));
        }
    }
}

// ----------------------------------------------------------------------------
// Laws of refresh and lookup
// ----------------------------------------------------------------------------

/// The last channel of `chs` with identifier `id`, if any.
pub open spec fn last_with_id(chs: Seq<ChannelView>, id: Seq<char>) -> Option<ChannelView>
    decreases chs.len(),
{
    if chs.len() == 0 {
        None
    } else if chs.last().id == id {
        Some(chs.last())
    } else {
        last_with_id(chs.drop_last(), id)
    }
}

proof fn lemma_channel_by_id_upsert(chs: Seq<ChannelView>, c: ChannelView, id: Seq<char>)
    requires
        distinct_channel_ids(chs),
    ensures
        channel_by_id(upsert_channel(chs, c), id) == if c.id == id {
            Some(c)
        } else {
            channel_by_id(chs, id)
        },
{
    let r = upsert_channel(chs, c);
    lemma_upsert_channel_distinct(chs, c);
    if c.id == id {
        let k = channel_index(r, id);
        if has_channel_id(chs, c.id) {
            let j = channel_index(chs, c.id);
            assert(r[j].id == id);
            assert(k == j);
        } else {
            assert(r[chs.len() as int].id == id);
            assert(k == chs.len());
        }
    } else if has_channel_id(chs, id) {
        let k = channel_index(chs, id);
        if has_channel_id(chs, c.id) {
            let j = channel_index(chs, c.id);
            assert(j != k);
            assert(r[k] == chs[k]);
        } else {
            assert(r[k] == chs[k]);
        }
        assert(has_channel_id(r, id));
        let k2 = channel_index(r, id);
        assert(k2 == k);
    } else {
        if has_channel_id(r, id) {
            let k2 = channel_index(r, id);
            if has_channel_id(chs, c.id) {
                assert(r[k2] == chs[k2]);
            } else {
                assert(k2 < chs.len());
            }
            assert(false);
        }
    }
}

proof fn lemma_upsert_channels_distinct(chs: Seq<ChannelView>, new: Seq<ChannelView>)
    requires
        distinct_channel_ids(chs),
    ensures
        distinct_channel_ids(upsert_channels(chs, new)),
    decreases new.len(),
{
    if new.len() > 0 {
        lemma_upsert_channels_distinct(chs, new.drop_last());
        lemma_upsert_channel_distinct(upsert_channels(chs, new.drop_last()), new.last());
    }
}

/// Merging channels keyed by identifier: looking a channel up after the merge
/// gives the last channel of `new` with that identifier, or, when `new` has
/// none, what the lookup gave before.
pub proof fn lemma_upsert_channels_lookup(chs: Seq<ChannelView>, new: Seq<ChannelView>, id: Seq<char>)
    requires
        distinct_channel_ids(chs),
    ensures
        channel_by_id(upsert_channels(chs, new), id) == match last_with_id(new, id) {
            Some(c) => Some(c),
            None => channel_by_id(chs, id),
        },
    decreases new.len(),
{
    if new.len() > 0 {
        lemma_upsert_channels_lookup(chs, new.drop_last(), id);
        lemma_upsert_channels_distinct(chs, new.drop_last());
        lemma_channel_by_id_upsert(upsert_channels(chs, new.drop_last()), new.last(), id);
    }
}

/// After a refresh whose channels the cache accepted, a channel lookup gives
/// the last fetched channel with that identifier, and otherwise the channel
/// known before; when the cache refused the channels, lookups are unchanged.
pub proof fn lemma_refresh_channel_lookup(
    old: CatalogState,
    snap: CatalogSnapshotView,
    saved: CacheSaveResults,
    id: Seq<char>,
)
    requires
        distinct_channel_ids(old.channels),
    ensures
        channel_by_id(refreshed(old, snap, saved).channels, id) == if saved.channels {
            match last_with_id(snap.channels, id) {
                Some(c) => Some(c),
                None => channel_by_id(old.channels, id),
            }
        } else {
            channel_by_id(old.channels, id)
        },
{
    if saved.channels {
        lemma_upsert_channels_lookup(old.channels, snap.channels, id);
    }
}

/// Channels are merged, never dropped: a channel known before a refresh is
/// still known after it.
pub proof fn lemma_refresh_keeps_known_channels(
    old: CatalogState,
    snap: CatalogSnapshotView,
    saved: CacheSaveResults,
    id: Seq<char>,
)
    requires
        distinct_channel_ids(old.channels),
        has_channel_id(old.channels, id),
    ensures
        has_channel_id(refreshed(old, snap, saved).channels, id),
{
    lemma_refresh_channel_lookup(old, snap, saved, id);
}

proof fn lemma_upsert_channel_keeps_ids(chs: Seq<ChannelView>, c: ChannelView, id: Seq<char>)
    requires
        has_channel_id(chs, id),
    ensures
        has_channel_id(upsert_channel(chs, c), id),
{
    let w = choose|i: int| 0 <= i < chs.len() && #[trigger] chs[i].id == id;
    let r = upsert_channel(chs, c);
    if has_channel_id(chs, c.id) {
        let k = channel_index(chs, c.id);
        assert(r[w].id == id);
    } else {
        assert(r[w] == chs[w]);
    }
}

proof fn lemma_upsert_channels_has_new_ids(chs: Seq<ChannelView>, new: Seq<ChannelView>)
    ensures
        forall|j: int|
            0 <= j < new.len() ==> has_channel_id(upsert_channels(chs, new), #[trigger] new[j].id),
    decreases new.len(),
{
    if new.len() > 0 {
        let init = new.drop_last();
        let inner = upsert_channels(chs, init);
        lemma_upsert_channels_has_new_ids(chs, init);
        assert forall|j: int| 0 <= j < new.len() implies has_channel_id(
            upsert_channels(chs, new),
            #[trigger] new[j].id,
        ) by {
            if j < new.len() - 1 {
                assert(init[j] == new[j]);
                lemma_upsert_channel_keeps_ids(inner, new.last(), new[j].id);
            } else {
                let r = upsert_channel(inner, new.last());
                if has_channel_id(inner, new.last().id) {
                    let k = channel_index(inner, new.last().id);
                    assert(r[k].id == new[j].id);
                } else {
                    assert(r[inner.len() as int].id == new[j].id);
                }
            }
        }
    }
}

proof fn lemma_upsert_known_channels_keeps_ids(chs: Seq<ChannelView>, new: Seq<ChannelView>)
    requires
        forall|j: int| 0 <= j < new.len() ==> has_channel_id(chs, #[trigger] new[j].id),
    ensures
        upsert_channels(chs, new).len() == chs.len(),
        forall|i: int| 0 <= i < chs.len() ==> #[trigger] upsert_channels(chs, new)[i].id == chs[i].id,
    decreases new.len(),
{
    if new.len() > 0 {
        let init = new.drop_last();
        assert forall|j: int| 0 <= j < init.len() implies has_channel_id(chs, #[trigger] init[j].id) by {
            assert(init[j] == new[j]);
        }
        lemma_upsert_known_channels_keeps_ids(chs, init);
        let inner = upsert_channels(chs, init);
        let last = new.last();
        assert(has_channel_id(chs, new[new.len() - 1].id));
        let w = choose|i: int| 0 <= i < chs.len() && #[trigger] chs[i].id == last.id;
        assert(inner[w].id == last.id);
        assert(has_channel_id(inner, last.id));
        let k = channel_index(inner, last.id);
        let r = upsert_channels(chs, new);
        assert(r == inner.update(k, last));
        assert forall|i: int| 0 <= i < chs.len() implies #[trigger] r[i].id == chs[i].id by {
            assert(inner[i].id == chs[i].id);
        }
    }
}

proof fn lemma_lookup_at_index(chs: Seq<ChannelView>, i: int)
    requires
        distinct_channel_ids(chs),
        0 <= i < chs.len(),
    ensures
        channel_by_id(chs, chs[i].id) == Some(chs[i]),
{
    assert(has_channel_id(chs, chs[i].id));
    let k = channel_index(chs, chs[i].id);
    assert(k == i);
}

/// Merging the same channels a second time changes nothing: the channel list
/// after two merges is the list after one.
pub proof fn lemma_upsert_channels_twice(chs: Seq<ChannelView>, new: Seq<ChannelView>)
    requires
        distinct_channel_ids(chs),
    ensures
        upsert_channels(upsert_channels(chs, new), new) == upsert_channels(chs, new),
{
    let once = upsert_channels(chs, new);
    let twice = upsert_channels(once, new);
    lemma_upsert_channels_distinct(chs, new);
    lemma_upsert_channels_distinct(once, new);
    lemma_upsert_channels_has_new_ids(chs, new);
    lemma_upsert_known_channels_keeps_ids(once, new);
    assert forall|i: int| 0 <= i < once.len() implies #[trigger] twice[i] == once[i] by {
        let id = once[i].id;
        assert(twice[i].id == id);
        lemma_lookup_at_index(once, i);
        lemma_lookup_at_index(twice, i);
        lemma_upsert_channels_lookup(chs, new, id);
        lemma_upsert_channels_lookup(once, new, id);
    }
    assert(twice =~= once);
}

/// Refreshing again with the same data changes nothing: the catalog after two
/// refreshes is the catalog after one (the channel list included, in the same
/// order), so every lookup gives what it gave after the first refresh.
pub proof fn lemma_refresh_twice_same_lookups(
    old: CatalogState,
    snap: CatalogSnapshotView,
    saved: CacheSaveResults,
    id: Seq<char>,
)
    requires
        distinct_channel_ids(old.channels),
    ensures
        refreshed(refreshed(old, snap, saved), snap, saved) == refreshed(old, snap, saved),
        channel_by_id(refreshed(refreshed(old, snap, saved), snap, saved).channels, id)
            == channel_by_id(refreshed(old, snap, saved).channels, id),
        refreshed(refreshed(old, snap, saved), snap, saved).feeds == refreshed(
            old,
            snap,
            saved,
        ).feeds,
        refreshed(refreshed(old, snap, saved), snap, saved).streams == refreshed(
            old,
            snap,
            saved,
        ).streams,
        refreshed(refreshed(old, snap, saved), snap, saved).categories == refreshed(
            old,
            snap,
            saved,
        ).categories,
        refreshed(refreshed(old, snap, saved), snap, saved).countries == refreshed(
            old,
            snap,
            saved,
        ).countries,
        refreshed(refreshed(old, snap, saved), snap, saved).languages == refreshed(
            old,
            snap,
            saved,
        ).languages,
{
    let once = refreshed(old, snap, saved);
    let twice = refreshed(once, snap, saved);
    if saved.channels {
        lemma_upsert_channels_twice(old.channels, snap.channels);
    }
    assert(twice.channels == once.channels);
}

/// Feeds and streams are replaced wholesale: after a refresh whose feeds
/// (streams) the cache accepted, the feeds (streams) found for a channel are
/// exactly the fetched ones, whatever was known before; when the cache refused
/// them, the lookups are unchanged.
pub proof fn lemma_refresh_feed_and_stream_lookup(
    old: CatalogState,
    snap: CatalogSnapshotView,
    saved: CacheSaveResults,
    channel_id: Seq<char>,
    key: Option<Seq<char>>,
)
    ensures
        feeds_of_channel(refreshed(old, snap, saved).feeds, channel_id) == if saved.feeds {
            feeds_of_channel(snap.feeds, channel_id)
        } else {
            feeds_of_channel(old.feeds, channel_id)
        },
        streams_of_key(refreshed(old, snap, saved).streams, channel_id, key) == if saved.streams {
            streams_of_key(snap.streams, channel_id, key)
        } else {
            streams_of_key(old.streams, channel_id, key)
        },
{
}

/// The feeds found for a channel are exactly the feeds of that channel, in
/// the order they are listed in: each of them belongs to the channel, and every feed
/// of the channel is among them.
pub proof fn lemma_feeds_of_channel_exact(feeds: Seq<FeedView>, channel_id: Seq<char>)
    ensures
        forall|i: int|
            0 <= i < feeds_of_channel(feeds, channel_id).len() ==> (#[trigger] feeds_of_channel(
                feeds,
                channel_id,
            )[i]).channel_id == channel_id,
        forall|k: int|
            0 <= k < feeds.len() && #[trigger] feeds[k].channel_id == channel_id
                ==> feeds_of_channel(feeds, channel_id).contains(feeds[k]),
    decreases feeds.len(),
{
    if feeds.len() > 0 {
        let init = feeds.drop_last();
        lemma_feeds_of_channel_exact(init, channel_id);
        let r = feeds_of_channel(feeds, channel_id);
        let ri = feeds_of_channel(init, channel_id);
        assert forall|k: int|
            0 <= k < feeds.len() && #[trigger] feeds[k].channel_id == channel_id implies r.contains(
            feeds[k],
        ) by {
            if k < feeds.len() - 1 {
                assert(init[k] == feeds[k]);
                let j = choose|j: int| 0 <= j < ri.len() && ri[j] == init[k];
                assert(r[j] == ri[j]);
            } else {
                assert(r[r.len() - 1] == feeds[k]);
            }
        }
        assert forall|i: int| 0 <= i < r.len() implies (#[trigger] r[i]).channel_id
            == channel_id by {
            if i < ri.len() {
                assert(r[i] == ri[i]);
            }
        }
    }
}

/// A stream lookup with an empty feed identifier is a lookup of the streams
/// that belong to no feed.
pub proof fn lemma_empty_feed_id_means_no_feed<D: ChannelDataSource, C: CacheStore>(
    repo: IptvCatalogRepository<D, C>,
    channel_id: Seq<char>,
)
    ensures
        repo.spec_candidate_streams(channel_id, Some(Seq::empty())) == repo.spec_candidate_streams(
            channel_id,
            None,
        ),
{
}

/// The streams found for a (channel, feed) key all belong to that channel and
/// that feed.
pub proof fn lemma_streams_of_key_sound(
    streams: Seq<StreamView>,
    channel_id: Seq<char>,
    key: Option<Seq<char>>,
)
    ensures
        forall|i: int|
            0 <= i < streams_of_key(streams, channel_id, key).len() ==> (#[trigger] streams_of_key(
                streams,
                channel_id,
                key,
            )[i]).channel_id == channel_id && stream_feed_key(
                streams_of_key(streams, channel_id, key)[i],
            ) == key,
    decreases streams.len(),
{
    if streams.len() > 0 {
        let init = streams.drop_last();
        lemma_streams_of_key_sound(init, channel_id, key);
        let r = streams_of_key(streams, channel_id, key);
        let ri = streams_of_key(init, channel_id, key);
        assert forall|i: int| 0 <= i < r.len() implies (#[trigger] r[i]).channel_id == channel_id
            && stream_feed_key(r[i]) == key by {
            if i < ri.len() {
                assert(r[i] == ri[i]);
            }
        }
    }
}

/// Every stream of a channel that belongs to the feed `key` is found under
/// that (channel, feed) key.
pub proof fn lemma_streams_of_key_complete(
    streams: Seq<StreamView>,
    channel_id: Seq<char>,
    key: Option<Seq<char>>,
)
    ensures
        forall|k: int|
            0 <= k < streams.len() && (#[trigger] streams[k]).channel_id == channel_id
                && stream_feed_key(streams[k]) == key ==> streams_of_key(
                streams,
                channel_id,
                key,
            ).contains(streams[k]),
    decreases streams.len(),
{
    if streams.len() > 0 {
        let init = streams.drop_last();
        lemma_streams_of_key_complete(init, channel_id, key);
        let r = streams_of_key(streams, channel_id, key);
        let ri = streams_of_key(init, channel_id, key);
        assert forall|k: int|
            0 <= k < streams.len() && (#[trigger] streams[k]).channel_id == channel_id
                && stream_feed_key(streams[k]) == key implies r.contains(streams[k]) by {
            if k < streams.len() - 1 {
                assert(init[k] == streams[k]);
                let j = choose|j: int| 0 <= j < ri.len() && ri[j] == init[k];
                assert(r[j] == ri[j]);
            } else {
                assert(r[r.len() - 1] == streams[k]);
            }
        }
    }
}


proof fn lemma_last_with_id_found(chs: Seq<ChannelView>, k: int)
    requires
        0 <= k < chs.len(),
    ensures
        last_with_id(chs, chs[k].id) is Some,
    decreases chs.len(),
{
    if chs.last().id != chs[k].id {
        assert(k < chs.len() - 1);
        assert(chs.drop_last()[k] == chs[k]);
        lemma_last_with_id_found(chs.drop_last(), k);
    }
}

/// A refresh publishes what the data source gave, part by part, whenever the
/// cache accepted that part: there are answers the source may give to the six
/// fetches and answers the cache may give to saving what was fetched such
/// that
/// - when the cache accepted the channels, every fetched channel can be
///   looked up by its identifier, and the lookup gives the last fetched
///   channel with that identifier; otherwise the channels are unchanged;
/// - each other part is exactly the fetched list (empty when its fetch
///   failed) when the cache accepted it, and unchanged otherwise.
pub proof fn lemma_refresh_publishes_what_was_fetched<D: ChannelDataSource, C: CacheStore>(
    before: IptvCatalogRepository<D, C>,
    after: IptvCatalogRepository<D, C>,
)
    requires
        before.spec_refreshes_to(after),
        distinct_channel_ids(before@.channels),
    ensures
        exists|fetched: FetchAnswers, answers: SaveAnswers|
            #![trigger source_may_answer(*before.source(), fetched), cache_may_answer(*before.cache_store(), snapshot_of_answers(fetched), answers)]
            {
                &&& source_may_answer(*before.source(), fetched)
                &&& cache_may_answer(*before.cache_store(), snapshot_of_answers(fetched), answers)
                &&& answers.channels is Ok ==> forall|k: int|
                    0 <= k < fetched_view(fetched.channels).len() ==> channel_by_id(
                        after@.channels,
                        (#[trigger] fetched_view(fetched.channels)[k]).id,
                    ) == last_with_id(
                        fetched_view(fetched.channels),
                        fetched_view(fetched.channels)[k].id,
                    ) && last_with_id(
                        fetched_view(fetched.channels),
                        fetched_view(fetched.channels)[k].id,
                    ) is Some
                &&& answers.channels is Err ==> after@.channels == before@.channels
                &&& after@.feeds == if answers.feeds is Ok {
                    fetched_view(fetched.feeds)
                } else {
                    before@.feeds
                }
                &&& after@.streams == if answers.streams is Ok {
                    fetched_view(fetched.streams)
                } else {
                    before@.streams
                }
                &&& after@.categories == if answers.categories is Ok {
                    fetched_view(fetched.categories)
                } else {
                    before@.categories
                }
                &&& after@.countries == if answers.countries is Ok {
                    fetched_view(fetched.countries)
                } else {
                    before@.countries
                }
                &&& after@.languages == if answers.languages is Ok {
                    fetched_view(fetched.languages)
                } else {
                    before@.languages
                }
            },
{
    let (fetched, answers) = choose|fetched: FetchAnswers, answers: SaveAnswers|
        #![trigger source_may_answer(*before.source(), fetched), cache_may_answer(*before.cache_store(), snapshot_of_answers(fetched), answers)]
        source_may_answer(*before.source(), fetched) && cache_may_answer(
            *before.cache_store(),
            snapshot_of_answers(fetched),
            answers,
        ) && after@ == refreshed(
            before@,
            snapshot_of_answers(fetched),
            saved_of_answers(answers),
        );
    let chs = fetched_view(fetched.channels);
    if answers.channels is Ok {
        assert forall|k: int| 0 <= k < chs.len() implies channel_by_id(
            after@.channels,
            (#[trigger] chs[k]).id,
        ) == last_with_id(chs, chs[k].id) && last_with_id(chs, chs[k].id) is Some by {
            lemma_last_with_id_found(chs, k);
            lemma_upsert_channels_lookup(before@.channels, chs, chs[k].id);
        }
    }
}

} // verus!

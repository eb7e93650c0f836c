//! Resolution of the streams that can be tried to play a channel.
use crate::domain::{FeedView, Stream, StreamView, Streams};
use crate::repository::{
    lemma_streams_of_key_complete, lemma_streams_of_key_sound, normalized_feed_key, stream_feed_key, streams_of_key,
    CatalogRepository, IptvCatalogRepository,
};
use crate::ports::{CacheStore, ChannelDataSource};
use vstd::prelude::*;

verus! {

/// A way of finding the streams that may play a channel.
pub trait StreamResolver {
    /// The candidate streams of `channel_id`, as a function of the resolver's
    /// state. An implementation states what it returns by overriding this.
    closed spec fn spec_candidate_streams(&self, channel_id: Seq<char>) -> Seq<StreamView> {
        arbitrary()
    }

    /// The streams to try, in order, to play `channel_id`.
    fn get_candidate_streams(&self, channel_id: &str) -> (r: Streams)
        ensures
            r.deep_view() == self.spec_candidate_streams(channel_id@),
    ;
}

/// The sequence held in `o`, or the empty sequence.
pub open spec fn or_empty<T>(o: Option<Seq<T>>) -> Seq<T> {
    match o {
        Some(s) => s,
        None => Seq::empty(),
    }
}

/// The streams of each feed of `feeds` in turn.
pub open spec fn streams_of_feeds<R: CatalogRepository>(
    repo: R,
    channel_id: Seq<char>,
    feeds: Seq<FeedView>,
) -> Seq<StreamView>
    decreases feeds.len(),
{
    if feeds.len() == 0 {
        Seq::empty()
    } else {
        streams_of_feeds(repo, channel_id, feeds.drop_last()) + or_empty(
            repo.spec_candidate_streams(channel_id, Some(feeds.last().id)),
        )
    }
}

/// The candidate streams of a channel: none when the channel has no feeds;
/// otherwise its streams that belong to no feed, then the streams of each of
/// its feeds in feed order.
pub open spec fn resolved_streams<R: CatalogRepository>(repo: R, channel_id: Seq<char>) -> Seq<
    StreamView,
> {
    match repo.spec_feeds_by_channel(channel_id) {
        None => Seq::empty(),
        Some(feeds) => or_empty(repo.spec_candidate_streams(channel_id, None)) + streams_of_feeds(
            repo,
            channel_id,
            feeds,
        ),
    }
}

/// Appends `more` to `all`.
fn append_streams(all: &mut Vec<Stream>, more: Vec<Stream>)
    ensures
        final(all).deep_view() == old(all).deep_view() + more.deep_view(),
{
    let ghost a = all.deep_view();
    let ghost m = more.deep_view();
    let mut more = more;
    all.append(&mut more);
    assert(all.deep_view() =~= a + m);
}

/// The resolver that takes every stream the repository holds for a channel.
pub struct IptvStreamResolver<R: CatalogRepository> {
    catalog: R,
}

impl<R: CatalogRepository> IptvStreamResolver<R> {
    /// The repository this resolver reads.
    pub closed spec fn repository(&self) -> R {
        self.catalog
    }

    pub fn new(catalog: R) -> (r: Self)
        ensures
            r.repository() == catalog,
    {
        IptvStreamResolver { catalog }
    }
}

impl<R: CatalogRepository> StreamResolver for IptvStreamResolver<R> {
    open spec fn spec_candidate_streams(&self, channel_id: Seq<char>) -> Seq<StreamView> {
        resolved_streams(self.repository(), channel_id)
    }

    fn get_candidate_streams(&self, channel_id: &str) -> (r: Streams) {
        let feeds = match self.catalog.get_feeds_by_channel(channel_id) {
            Some(feeds) => feeds,
            None => return Vec::new(),
        };
        let ghost fs = feeds.deep_view();
        let ghost repo = self.catalog;
        let mut all_streams: Vec<Stream> = Vec::new();
        if let Some(streams) = self.catalog.get_candidate_streams(channel_id, None) {
            append_streams(&mut all_streams, streams);
        }
        assert(all_streams.deep_view() =~= or_empty(repo.spec_candidate_streams(channel_id@, None))
            + streams_of_feeds(repo, channel_id@, fs.take(0)));
        let n = feeds.len();
        for k in 0..n
            invariant
                n == feeds.len(),
                fs == feeds.deep_view(),
                repo == self.catalog,
                all_streams.deep_view() == or_empty(repo.spec_candidate_streams(channel_id@, None))
                    + streams_of_feeds(repo, channel_id@, fs.take(k as int)),
        {
            let ghost before = all_streams.deep_view();
            let got = self.catalog.get_candidate_streams(channel_id, Some(feeds[k].id.as_str()));
            if let Some(streams) = got {
                append_streams(&mut all_streams, streams);
            }
            proof {
                assert(fs.take(k + 1).drop_last() =~= fs.take(k as int));
                assert(all_streams.deep_view() =~= before + or_empty(
                    repo.spec_candidate_streams(channel_id@, Some(fs[k as int].id)),
                ));
            }
        }
        assert(fs.take(n as int) =~= fs);
        all_streams
    }
}

proof fn lemma_streams_of_feeds_belong<D: ChannelDataSource, C: CacheStore>(
    repo: IptvCatalogRepository<D, C>,
    channel_id: Seq<char>,
    feeds: Seq<FeedView>,
)
    ensures
        forall|i: int|
            0 <= i < streams_of_feeds(repo, channel_id, feeds).len() ==> (
            #[trigger] streams_of_feeds(repo, channel_id, feeds)[i]).channel_id == channel_id,
    decreases feeds.len(),
{
    if feeds.len() > 0 {
        let init = feeds.drop_last();
        lemma_streams_of_feeds_belong(repo, channel_id, init);
        let a = streams_of_feeds(repo, channel_id, init);
        let key = normalized_feed_key(Some(feeds.last().id));
        lemma_streams_of_key_sound(repo@.streams, channel_id, key);
        let b = or_empty(repo.spec_candidate_streams(channel_id, Some(feeds.last().id)));
        let r = streams_of_feeds(repo, channel_id, feeds);
        assert(r == a + b);
        assert forall|i: int| 0 <= i < r.len() implies (#[trigger] r[i]).channel_id == channel_id by {
            if i < a.len() {
                assert(r[i] == a[i]);
            } else {
                assert(r[i] == b[i - a.len()]);
            }
        }
    }
}

/// Every candidate stream that the resolver finds in the catalog repository
/// belongs to the channel asked for.
pub proof fn lemma_candidates_belong_to_channel<D: ChannelDataSource, C: CacheStore>(
    repo: IptvCatalogRepository<D, C>,
    channel_id: Seq<char>,
)
    ensures
        forall|i: int|
            0 <= i < resolved_streams(repo, channel_id).len() ==> (#[trigger] resolved_streams(
                repo,
                channel_id,
            )[i]).channel_id == channel_id,
{
    let r = resolved_streams(repo, channel_id);
    match repo.spec_feeds_by_channel(channel_id) {
        None => {},
        Some(feeds) => {
            lemma_streams_of_key_sound(repo@.streams, channel_id, None);
            lemma_streams_of_feeds_belong(repo, channel_id, feeds);
            let a = or_empty(repo.spec_candidate_streams(channel_id, None));
            let b = streams_of_feeds(repo, channel_id, feeds);
            assert forall|i: int| 0 <= i < r.len() implies (#[trigger] r[i]).channel_id
                == channel_id by {
                if i < a.len() {
                    assert(r[i] == a[i]);
                } else {
                    assert(r[i] == b[i - a.len()]);
                }
            }
        },
    }
}

proof fn lemma_streams_of_feeds_contains<R: CatalogRepository>(
    repo: R,
    channel_id: Seq<char>,
    feeds: Seq<FeedView>,
    j: int,
    s: StreamView,
)
    requires
        0 <= j < feeds.len(),
        or_empty(repo.spec_candidate_streams(channel_id, Some(feeds[j].id))).contains(s),
    ensures
        streams_of_feeds(repo, channel_id, feeds).contains(s),
    decreases feeds.len(),
{
    let init = feeds.drop_last();
    let a = streams_of_feeds(repo, channel_id, init);
    let b = or_empty(repo.spec_candidate_streams(channel_id, Some(feeds.last().id)));
    let r = streams_of_feeds(repo, channel_id, feeds);
    assert(r == a + b);
    if j < feeds.len() - 1 {
        assert(init[j] == feeds[j]);
        lemma_streams_of_feeds_contains(repo, channel_id, init, j, s);
        let i = choose|i: int| 0 <= i < a.len() && a[i] == s;
        assert(r[i] == a[i]);
    } else {
        let i = choose|i: int| 0 <= i < b.len() && b[i] == s;
        assert(r[a.len() + i] == b[i]);
    }
}

/// For a channel that has feeds, the resolver finds every stream of the
/// channel that belongs to no feed or to one of the channel's feeds.
pub proof fn lemma_candidates_include_all_streams<D: ChannelDataSource, C: CacheStore>(
    repo: IptvCatalogRepository<D, C>,
    channel_id: Seq<char>,
    feeds: Seq<FeedView>,
)
    requires
        repo.spec_feeds_by_channel(channel_id) == Some(feeds),
    ensures
        forall|k: int|
            0 <= k < repo@.streams.len() && (#[trigger] repo@.streams[k]).channel_id == channel_id
                && (stream_feed_key(repo@.streams[k]) is None || exists|j: int|
                0 <= j < feeds.len() && feeds[j].id == repo@.streams[k].feed_id)
                ==> resolved_streams(repo, channel_id).contains(repo@.streams[k]),
{
    let streams = repo@.streams;
    let r = resolved_streams(repo, channel_id);
    let a = or_empty(repo.spec_candidate_streams(channel_id, None));
    let b = streams_of_feeds(repo, channel_id, feeds);
    assert(r == a + b);
    lemma_streams_of_key_complete(streams, channel_id, None);
    assert forall|k: int|
        0 <= k < streams.len() && (#[trigger] streams[k]).channel_id == channel_id && (
        stream_feed_key(streams[k]) is None || exists|j: int|
            0 <= j < feeds.len() && feeds[j].id == streams[k].feed_id) implies r.contains(
        streams[k],
    ) by {
        let s = streams[k];
        if stream_feed_key(s) is None {
            let i = choose|i: int|
                0 <= i < streams_of_key(streams, channel_id, None).len() && streams_of_key(
                    streams,
                    channel_id,
                    None,
                )[i] == s;
            assert(a[i] == s);
            assert(r[i] == a[i]);
        } else {
            let j = choose|j: int| 0 <= j < feeds.len() && feeds[j].id == s.feed_id;
            let key = Some(feeds[j].id);
            assert(normalized_feed_key(key) == stream_feed_key(s));
            lemma_streams_of_key_complete(streams, channel_id, stream_feed_key(s));
            let inner = streams_of_key(streams, channel_id, stream_feed_key(s));
            assert(inner.contains(s));
            assert(or_empty(repo.spec_candidate_streams(channel_id, key)) == inner);
            lemma_streams_of_feeds_contains(repo, channel_id, feeds, j, s);
            let i = choose|i: int| 0 <= i < b.len() && b[i] == s;
            assert(r[a.len() + i] == b[i]);
        }
    }
}

} // verus!

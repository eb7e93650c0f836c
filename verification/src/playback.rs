//! Playback control: plays a channel by trying its candidate streams in turn,
//! falling back to the next candidate when the player reports a failure.
use crate::domain::{Stream, StreamView};
use crate::ports::{PlaybackListener, PlayerController, PortError};
use crate::stream_resolver::StreamResolver;
use vstd::prelude::*;

verus! {

/// The state of the playback of a channel.
#[derive(Debug, PartialEq)]
pub enum PlaybackState {
    Idle,
    Loading { channel_id: String, attempt: usize },
    Playing { channel_id: String, stream_id: String },
    Retrying { channel_id: String, attempt: usize, last_error: String },
    Failed { channel_id: String, error: String },
    Stopped,
}

pub enum PlaybackStateView {
    Idle,
    Loading { channel_id: Seq<char>, attempt: usize },
    Playing { channel_id: Seq<char>, stream_id: Seq<char> },
    Retrying { channel_id: Seq<char>, attempt: usize, last_error: Seq<char> },
    Failed { channel_id: Seq<char>, error: Seq<char> },
    Stopped,
}

impl View for PlaybackState {
    type V = PlaybackStateView;

    open spec fn view(&self) -> PlaybackStateView {
        match self {
            PlaybackState::Idle => PlaybackStateView::Idle,
            PlaybackState::Loading { channel_id, attempt } => PlaybackStateView::Loading {
                channel_id: channel_id@,
                attempt: *attempt,
            },
            PlaybackState::Playing { channel_id, stream_id } => PlaybackStateView::Playing {
                channel_id: channel_id@,
                stream_id: stream_id@,
            },
            PlaybackState::Retrying { channel_id, attempt, last_error } =>
                PlaybackStateView::Retrying {
                channel_id: channel_id@,
                attempt: *attempt,
                last_error: last_error@,
            },
            PlaybackState::Failed { channel_id, error } => PlaybackStateView::Failed {
                channel_id: channel_id@,
                error: error@,
            },
            PlaybackState::Stopped => PlaybackStateView::Stopped,
        }
    }
}

/// The channel whose playback is under way (loading, playing or retrying).
pub open spec fn active_channel(s: PlaybackStateView) -> Option<Seq<char>> {
    match s {
        PlaybackStateView::Loading { channel_id, .. } => Some(channel_id),
        PlaybackStateView::Playing { channel_id, .. } => Some(channel_id),
        PlaybackStateView::Retrying { channel_id, .. } => Some(channel_id),
        _ => None,
    }
}

/// Everything the controller knows of the current playback.
pub struct PlaybackSession {
    pub state: PlaybackStateView,
    pub candidates: Seq<StreamView>,
    pub attempted: Seq<Seq<char>>,
    pub last_error: Option<Seq<char>>,
}

/// The description of the failure when a channel has no streams at all.
pub open spec fn no_streams_error() -> Seq<char> {
    "no streams found for channel"@
}

/// What every playback session keeps: the attempted streams are the URLs of
/// the first candidates, in order, and the attempt number of a state is the
/// number of streams attempted so far (1 while loading the first candidate,
/// more while retrying); a playing stream is the last one attempted.
pub open spec fn session_wf(s: PlaybackSession) -> bool {
    &&& s.attempted.len() <= s.candidates.len()
    &&& forall|i: int| 0 <= i < s.attempted.len() ==> #[trigger] s.attempted[i] == s.candidates[i].url
    &&& match s.state {
        PlaybackStateView::Loading { attempt, .. } => attempt == 1 && s.attempted.len() == 1,
        PlaybackStateView::Retrying { attempt, .. } => attempt == s.attempted.len() && attempt >= 2,
        PlaybackStateView::Playing { stream_id, .. } => s.attempted.len() >= 1 && stream_id
            == s.attempted.last(),
        _ => true,
    }
}

/// The session of a controller that has played nothing yet.
pub open spec fn idle_session() -> PlaybackSession {
    PlaybackSession {
        state: PlaybackStateView::Idle,
        candidates: Seq::empty(),
        attempted: Seq::empty(),
        last_error: None,
    }
}

/// The outcome of trying the candidates from the first one not yet attempted:
/// either one of them was started (loading for the first candidate, retrying
/// for a later one) or all of them have been attempted and playback failed.
pub open spec fn tried_from(
    old: PlaybackSession,
    new: PlaybackSession,
    channel_id: Seq<char>,
    error: Seq<char>,
) -> bool {
    &&& new.candidates == old.candidates
    &&& new.last_error == old.last_error
    &&& new.attempted.len() > old.attempted.len() || new.attempted.len() == new.candidates.len()
    &&& new.attempted.subrange(0, old.attempted.len() as int) == old.attempted
    &&& match new.state {
        PlaybackStateView::Loading { channel_id: c, .. } => c == channel_id,
        PlaybackStateView::Retrying { channel_id: c, last_error, .. } => c == channel_id && (
        new.attempted.len() == old.attempted.len() + 1 ==> last_error == error),
        PlaybackStateView::Failed { channel_id: c, error: e } => c == channel_id
            && new.attempted.len() == new.candidates.len() && (new.attempted.len()
            == old.attempted.len() ==> e == error),
        _ => false,
    }
}

/// The error description a player answered with, if it refused.
pub open spec fn outcome_error(outcome: &Result<(), PortError>) -> Option<Seq<char>> {
    match outcome {
        Ok(()) => None,
        Err(e) => Some(e.message@),
    }
}

/// The session after a pause or seek command that the player answered with
/// `answer`: unchanged on success, with the player's error as the last error
/// on failure.
pub open spec fn after_command(s: PlaybackSession, answer: Result<(), PortError>) -> PlaybackSession {
    match outcome_error(&answer) {
        None => s,
        Some(error) => with_last_error(s, error),
    }
}

/// The session after a stop command that the player answered with `answer`:
/// stopped on success, with the player's error as the last error on failure.
pub open spec fn after_stop(s: PlaybackSession, answer: Result<(), PortError>) -> PlaybackSession {
    match answer {
        Ok(()) => with_state(s, PlaybackStateView::Stopped),
        Err(e) => with_last_error(s, e.message@),
    }
}

/// `s` with `error` as its last error.
pub open spec fn with_last_error(s: PlaybackSession, error: Seq<char>) -> PlaybackSession {
    PlaybackSession { last_error: Some(error), ..s }
}

/// `s` in the state `state`.
pub open spec fn with_state(s: PlaybackSession, state: PlaybackStateView) -> PlaybackSession {
    PlaybackSession { state, ..s }
}

/// The controller's own data of a playback session.
struct Session {
    state: PlaybackState,
    candidates: Vec<Stream>,
    attempted: Vec<String>,
    last_error: Option<String>,
}

impl Session {
    spec fn view(&self) -> PlaybackSession {
        PlaybackSession {
            state: self.state@,
            candidates: self.candidates.deep_view(),
            attempted: self.attempted.deep_view(),
            last_error: self.last_error.deep_view(),
        }
    }

    fn idle() -> (r: Session)
        ensures
            r.view() == idle_session(),
    {
        let r = Session {
            state: PlaybackState::Idle,
            candidates: Vec::new(),
            attempted: Vec::new(),
            last_error: None,
        };
        assert(r.candidates.deep_view() =~= Seq::<StreamView>::empty());
        assert(r.attempted.deep_view() =~= Seq::<Seq<char>>::empty());
        r
    }
}

/// The state once a candidate has started: loading when it is the first
/// stream attempted, otherwise retrying with the error that made the
/// previous candidate fail.
pub open spec fn started_state(
    channel_id: Seq<char>,
    attempts: usize,
    previous_error: Seq<char>,
) -> PlaybackStateView {
    if attempts == 1 {
        PlaybackStateView::Loading { channel_id, attempt: 1 }
    } else {
        PlaybackStateView::Retrying { channel_id, attempt: attempts, last_error: previous_error }
    }
}

impl Session {
    /// The first candidate not attempted yet.
    fn candidate_to_try(&self) -> (r: Stream)
        requires
            self.view().attempted.len() < self.view().candidates.len(),
        ensures
            r@ == self.view().candidates[self.view().attempted.len() as int],
    {
        self.candidates[self.attempted.len()].clone()
    }

    /// Records the attempt of the first candidate not attempted yet, given
    /// the player's answer to loading and then starting it (the loading
    /// error when it refused to load). The candidate's URL joins the
    /// attempted streams. If the player started it, the state becomes
    /// `started_state` with the error of the previous attempt; if not, the
    /// state is kept and the player's error becomes the current error.
    fn record_attempt(
        &mut self,
        channel_id: &String,
        outcome: Result<(), PortError>,
        error: &mut String,
    ) -> (started: bool)
        requires
            old(self).view().attempted.len() < old(self).view().candidates.len(),
        ensures
            final(self).candidates@ == old(self).candidates@,
            final(self).view().candidates == old(self).view().candidates,
            final(self).view().last_error == old(self).view().last_error,
            final(self).view().attempted == old(self).view().attempted.push(
                old(self).view().candidates[old(self).view().attempted.len() as int].url,
            ),
            started == outcome is Ok,
            match outcome {
                Ok(()) => final(error)@ == old(error)@ && final(self).view().state == started_state(
                    channel_id@,
                    final(self).attempted.len(),
                    old(error)@,
                ),
                Err(e) => final(error)@ == e.message@ && final(self).view().state == old(
                    self,
                ).view().state,
            },
    {
        let idx = self.attempted.len();
        let url = self.candidates[idx].url.clone();
        let ghost before = self.attempted.deep_view();
        self.attempted.push(url);
        proof {
            assert(self.attempted.deep_view() =~= before.push(self.candidates.deep_view()[idx as int].url));
        }
        match outcome {
            Ok(()) => {
                let count = self.attempted.len();
                if count == 1 {
                    self.state = PlaybackState::Loading { channel_id: channel_id.clone(), attempt: 1 };
                } else {
                    self.state = PlaybackState::Retrying {
                        channel_id: channel_id.clone(),
                        attempt: count,
                        last_error: error.clone(),
                    };
                }
                true
            },
            Err(e) => {
                *error = e.message;
                false
            },
        }
    }
}

/// The player accepted candidate `s`: asked to load it, it answered with
/// success, and asked then to start it, it answered with success.
pub open spec fn accepted<P: PlayerController>(player: P, s: StreamView) -> bool {
    player.spec_load_answer(s, Ok(())) && player.spec_play_answer(Ok(()))
}

/// The player refused candidate `s`: asked to load it, it answered with an
/// error, or it loaded it and answered the request to start it with an error.
pub open spec fn refused<P: PlayerController>(player: P, s: StreamView) -> bool {
    ||| exists|e: PortError| #[trigger] player.spec_load_answer(s, Err(e))
    ||| player.spec_load_answer(s, Ok(())) && exists|e: PortError|
        #[trigger] player.spec_play_answer(Err(e))
}

/// Whether playback of a started candidate is under way.
pub open spec fn is_started(state: PlaybackStateView) -> bool {
    state is Loading || state is Retrying
}

/// Each candidate attempted from `old` to `new` was handed to the player,
/// in order, and the player's answers decided the outcome: while playback is
/// under way the last of them was accepted, and every other one was refused.
pub open spec fn handed_in_order<P: PlayerController>(
    player: P,
    old: PlaybackSession,
    new: PlaybackSession,
) -> bool {
    forall|i: int|
        #![trigger new.candidates[i]]
        old.attempted.len() <= i < new.attempted.len() ==> if i == new.attempted.len() - 1
            && is_started(new.state) {
            accepted(player, new.candidates[i])
        } else {
            refused(player, new.candidates[i])
        }
}

/// Tries the candidates of `session` that have not been attempted yet, in
/// order, until the player loads and starts one: each is loaded and, when
/// that succeeds, started; once every candidate has been attempted without
/// success, playback fails with the last error.
fn try_candidates<P: PlayerController>(
    player: &P,
    session: &mut Session,
    channel_id: &String,
    initial_error: String,
)
    requires
        session_wf(old(session).view()),
    ensures
        session_wf(final(session).view()),
        tried_from(old(session).view(), final(session).view(), channel_id@, initial_error@),
        handed_in_order(*player, old(session).view(), final(session).view()),
{
    let ghost start = session.view();
    let ghost first_error = initial_error@;
    let ghost mut previous: Seq<char> = initial_error@;
    let mut error = initial_error;
    let n = session.candidates.len();
    let mut started = false;
    while session.attempted.len() < n && !started
        invariant
            n == session.candidates.len(),
            session.candidates.deep_view() == start.candidates,
            session.last_error.deep_view() == start.last_error,
            start.attempted.len() <= session.attempted.len() <= n,
            started ==> session.attempted.len() > start.attempted.len(),
            !started ==> session.state@ == start.state,
            started ==> session.state@ == started_state(
                channel_id@,
                session.attempted.len(),
                previous,
            ),
            started && session.attempted.len() == start.attempted.len() + 1 ==> previous
                == first_error,
            session.attempted.deep_view().subrange(0, start.attempted.len() as int)
                == start.attempted,
            forall|i: int|
                0 <= i < session.attempted.len() ==> #[trigger] session.attempted.deep_view()[i]
                    == start.candidates[i].url,
            session.attempted.len() == start.attempted.len() ==> error@ == first_error,
            forall|i: int|
                #![trigger start.candidates[i]]
                start.attempted.len() <= i < session.attempted.len() ==> if i
                    == session.attempted.len() - 1 && started {
                    accepted(*player, start.candidates[i])
                } else {
                    refused(*player, start.candidates[i])
                },
        decreases n - session.attempted.len() + (if started { 0int } else { 1int }),
    {
        let ghost before = session.attempted.deep_view();
        let ghost idx = session.attempted.len() as int;
        proof {
            previous = error@;
        }
        let stream = session.candidate_to_try();
        let ghost candidate = stream@;
        let loaded = player.load(stream);
        let ghost load_answer = loaded;
        let outcome = match loaded {
            Ok(()) => player.play(),
            Err(e) => Err(e),
        };
        let ghost answer = outcome;
        proof {
            assert(candidate == start.candidates[idx]);
            match load_answer {
                Err(e) => {
                    assert(player.spec_load_answer(candidate, Err(e)));
                    assert(answer == Err::<(), PortError>(e));
                    assert(refused(*player, candidate));
                },
                Ok(u) => {
                    assert(u == ());
                    assert(load_answer == Ok::<(), PortError>(()));
                    assert(player.spec_load_answer(candidate, Ok(())));
                    match answer {
                        Err(e) => {
                            assert(player.spec_play_answer(Err(e)));
                            assert(refused(*player, candidate));
                        },
                        Ok(v) => {
                            assert(v == ());
                            assert(answer == Ok::<(), PortError>(()));
                            assert(player.spec_play_answer(Ok(())));
                            assert(accepted(*player, candidate));
                        },
                    }
                },
            }
        }
        started = session.record_attempt(channel_id, outcome, &mut error);
        proof {
            assert(session.attempted.deep_view().len() == session.attempted@.len());
            assert(session.attempted@.len() == idx + 1);
            assert(session.attempted.deep_view().subrange(0, start.attempted.len() as int)
                =~= before.subrange(0, start.attempted.len() as int));
        }
    }
    if !started {
        session.state = PlaybackState::Failed { channel_id: channel_id.clone(), error };
    }
}

/// The playback commands offered to applications.
pub trait PlaybackController: Sized {
    /// Whether `after` is a state this controller can be left in by playing
    /// `channel_id`. An implementation states what its commands do by
    /// overriding this and the relations below.
    closed spec fn spec_plays(&self, after: Self, channel_id: Seq<char>) -> bool {
        arbitrary()
    }

    /// Whether `after` is a state this controller can be left in by a pause.
    closed spec fn spec_pauses(&self, after: Self) -> bool {
        arbitrary()
    }

    /// Whether `after` is a state this controller can be left in by a stop.
    closed spec fn spec_stops(&self, after: Self) -> bool {
        arbitrary()
    }

    /// Whether `after` is a state this controller can be left in by seeking
    /// to `seconds`.
    closed spec fn spec_seeks(&self, after: Self, seconds: u32) -> bool {
        arbitrary()
    }

    /// Plays a channel.
    fn play(&mut self, channel_id: &str)
        ensures
            old(self).spec_plays(*final(self), channel_id@),
    ;

    /// Pauses playback.
    fn pause(&mut self)
        ensures
            old(self).spec_pauses(*final(self)),
    ;

    /// Stops playback.
    fn stop(&mut self)
        ensures
            old(self).spec_stops(*final(self)),
    ;

    /// Seeks playback to `seconds`.
    fn seek(&mut self, seconds: u32)
        ensures
            old(self).spec_seeks(*final(self), seconds),
    ;
}

/// The controller that plays a channel through a stream resolver and a
/// platform player, with fallback to the next candidate stream on failure.
pub struct IptvPlaybackController<R: StreamResolver, P: PlayerController> {
    stream_resolver: R,
    player: P,
    session: Session,
}

impl<R: StreamResolver, P: PlayerController> IptvPlaybackController<R, P> {
    #[verifier::type_invariant]
    spec fn well_formed(self) -> bool {
        session_wf(self.session.view())
    }

    /// The current playback session.
    pub closed spec fn spec_session(&self) -> PlaybackSession {
        self.session.view()
    }

    /// The resolver that gives the candidate streams.
    pub closed spec fn resolver(&self) -> R {
        self.stream_resolver
    }

    /// The player that the streams are handed to.
    pub closed spec fn player(&self) -> P {
        self.player
    }

    /// A controller with nothing played yet.
    pub fn new(stream_resolver: R, player: P) -> (r: Self)
        ensures
            r.spec_session() == idle_session(),
            r.resolver() == stream_resolver,
            r.player() == player,
    {
        IptvPlaybackController { stream_resolver, player, session: Session::idle() }
    }

    /// The current playback state.
    pub fn state(&self) -> (r: &PlaybackState)
        ensures
            r@ == self.spec_session().state,
    {
        &self.session.state
    }

    /// The last recorded error.
    pub fn last_error(&self) -> (r: &Option<String>)
        ensures
            r.deep_view() == self.spec_session().last_error,
    {
        &self.session.last_error
    }

    /// The URLs of the streams attempted for the current channel, in order.
    pub fn attempted_streams(&self) -> (r: &Vec<String>)
        ensures
            r.deep_view() == self.spec_session().attempted,
    {
        &self.session.attempted
    }

    /// Records what the player answered to a pause or seek command: a
    /// failure becomes the last error, success changes nothing.
    pub fn record_command_outcome(&mut self, outcome: Result<(), PortError>)
        ensures
            final(self).resolver() == old(self).resolver(),
            final(self).player() == old(self).player(),
            final(self).spec_session() == match outcome {
                Ok(()) => old(self).spec_session(),
                Err(e) => with_last_error(old(self).spec_session(), e.message@),
            },
    {
        proof {
            use_type_invariant(&*self);
        }
        if let Err(e) = outcome {
            self.session.last_error = Some(e.message);
        }
    }

    /// Records what the player answered to a stop command: on success
    /// playback is stopped, a failure becomes the last error.
    pub fn record_stop_outcome(&mut self, outcome: Result<(), PortError>)
        ensures
            final(self).resolver() == old(self).resolver(),
            final(self).player() == old(self).player(),
            final(self).spec_session() == match outcome {
                Ok(()) => with_state(old(self).spec_session(), PlaybackStateView::Stopped),
                Err(e) => with_last_error(old(self).spec_session(), e.message@),
            },
    {
        proof {
            use_type_invariant(&*self);
        }
        match outcome {
            Ok(()) => {
                self.session.state = PlaybackState::Stopped;
            },
            Err(e) => {
                self.session.last_error = Some(e.message);
            },
        }
    }
}

impl<R: StreamResolver, P: PlayerController> PlaybackController for IptvPlaybackController<R, P> {
    /// Playing resolves the candidate streams of the channel. With none,
    /// playback fails at once with `no_streams_error`; otherwise the
    /// candidates are tried from the first, as `tried_from` describes. The
    /// resolver is kept.
    open spec fn spec_plays(&self, after: Self, channel_id: Seq<char>) -> bool {
        &&& after.resolver() == self.resolver()
        &&& after.player() == self.player()
        &&& session_wf(after.spec_session())
        &&& after.spec_session().candidates == self.resolver().spec_candidate_streams(channel_id)
        &&& after.spec_session().candidates.len() == 0 ==> after.spec_session() == (
        PlaybackSession {
            state: PlaybackStateView::Failed { channel_id, error: no_streams_error() },
            candidates: Seq::empty(),
            attempted: Seq::empty(),
            last_error: Some(no_streams_error()),
        })
        &&& after.spec_session().candidates.len() > 0 ==> tried_from(
            PlaybackSession {
                state: PlaybackStateView::Idle,
                candidates: after.spec_session().candidates,
                attempted: Seq::empty(),
                last_error: self.spec_session().last_error,
            },
            after.spec_session(),
            channel_id,
            Seq::empty(),
        )
        &&& handed_in_order(
            self.player(),
            PlaybackSession {
                state: PlaybackStateView::Idle,
                candidates: after.spec_session().candidates,
                attempted: Seq::empty(),
                last_error: self.spec_session().last_error,
            },
            after.spec_session(),
        )
    }

    /// A pause asks the player to pause, once: the session is what the
    /// player's answer to that command makes of it (`after_command`); the
    /// resolver and the player are kept.
    open spec fn spec_pauses(&self, after: Self) -> bool {
        &&& after.resolver() == self.resolver()
        &&& after.player() == self.player()
        &&& exists|answer: Result<(), PortError>|
            #[trigger] self.player().spec_pause_answer(answer) && after.spec_session()
                == after_command(self.spec_session(), answer)
    }

    /// A stop asks the player to stop, once: the session is what the player's
    /// answer to that command makes of it (`after_stop`), so playback is
    /// stopped exactly when the player stopped; the resolver and the player
    /// are kept.
    open spec fn spec_stops(&self, after: Self) -> bool {
        &&& after.resolver() == self.resolver()
        &&& after.player() == self.player()
        &&& exists|answer: Result<(), PortError>|
            #[trigger] self.player().spec_stop_answer(answer) && after.spec_session()
                == after_stop(self.spec_session(), answer)
    }

    /// A seek asks the player to seek to `seconds`, once: the session is what
    /// the player's answer to that command makes of it (`after_command`); the
    /// resolver and the player are kept.
    open spec fn spec_seeks(&self, after: Self, seconds: u32) -> bool {
        &&& after.resolver() == self.resolver()
        &&& after.player() == self.player()
        &&& exists|answer: Result<(), PortError>|
            #[trigger] self.player().spec_seek_answer(seconds, answer) && after.spec_session()
                == after_command(self.spec_session(), answer)
    }

    /// Resolves the candidate streams of the channel and starts the first one
    /// the player accepts; with no candidates, playback fails at once.
    fn play(&mut self, channel_id: &str)
    {
        let candidates = self.stream_resolver.get_candidate_streams(channel_id);
        let ch = channel_id.to_owned();
        let mut session = Session::idle();
        std::mem::swap(&mut session, &mut self.session);
        session.state = PlaybackState::Idle;
        session.candidates = candidates;
        session.attempted = Vec::new();
        proof {
            assert(session.attempted.deep_view() =~= Seq::<Seq<char>>::empty());
        }
        if session.candidates.len() == 0 {
            proof {
                assert(session.candidates.deep_view() =~= Seq::<StreamView>::empty());
            }
            let message = "no streams found for channel".to_owned();
            session.last_error = Some(message.clone());
            session.state = PlaybackState::Failed { channel_id: ch, error: message };
        } else {
            try_candidates(&self.player, &mut session, &ch, String::new());
        }
        self.session = session;
    }

    /// Pauses the player; a failure is recorded as the last error.
    fn pause(&mut self) {
        let outcome = self.player.pause();
        let ghost answer = outcome;
        self.record_command_outcome(outcome);
    }

    /// Stops the player; playback is then stopped, or, if the player fails,
    /// the failure is recorded as the last error.
    fn stop(&mut self) {
        let outcome = self.player.stop();
        let ghost answer = outcome;
        self.record_stop_outcome(outcome);
    }

    /// Seeks the player; a failure is recorded as the last error.
    fn seek(&mut self, seconds: u32) {
        let outcome = self.player.seek_position(seconds);
        let ghost answer = outcome;
        self.record_command_outcome(outcome);
    }
}

impl<R: StreamResolver, P: PlayerController> PlaybackListener for IptvPlaybackController<R, P> {
    /// The stream being loaded (or retried) has started: playback is now
    /// playing the last attempted stream. In any other state nothing changes.
    fn on_playback_started(&mut self) -> (r: Result<(), PortError>)
        ensures
            r is Ok,
            final(self).resolver() == old(self).resolver(),
            final(self).player() == old(self).player(),
            session_wf(final(self).spec_session()),
            final(self).spec_session().candidates == old(self).spec_session().candidates,
            final(self).spec_session().attempted == old(self).spec_session().attempted,
            final(self).spec_session().last_error == old(self).spec_session().last_error,
            final(self).spec_session().state == match old(self).spec_session().state {
                PlaybackStateView::Loading { channel_id, .. } => PlaybackStateView::Playing {
                    channel_id,
                    stream_id: old(self).spec_session().attempted.last(),
                },
                PlaybackStateView::Retrying { channel_id, .. } => PlaybackStateView::Playing {
                    channel_id,
                    stream_id: old(self).spec_session().attempted.last(),
                },
                other => other,
            },
    {
        proof {
            use_type_invariant(&*self);
        }
        let channel = match &self.session.state {
            PlaybackState::Loading { channel_id, .. } => Some(channel_id.clone()),
            PlaybackState::Retrying { channel_id, .. } => Some(channel_id.clone()),
            _ => None,
        };
        if let Some(channel_id) = channel {
            let last = self.session.attempted.len() - 1;
            let stream_id = self.session.attempted[last].clone();
            self.session.state = PlaybackState::Playing { channel_id, stream_id };
        }
        Ok(())
    }

    /// The player failed with `error`: the error is recorded and, while a
    /// channel is being played, the next candidate stream is tried; once all
    /// candidates have been attempted, playback fails.
    fn on_playback_failed(&mut self, error: &str) -> (r: Result<(), PortError>)
        ensures
            r is Ok,
            final(self).resolver() == old(self).resolver(),
            final(self).player() == old(self).player(),
            session_wf(final(self).spec_session()),
            final(self).spec_session().last_error == Some(error@),
            match active_channel(old(self).spec_session().state) {
                Some(channel_id) => tried_from(
                    with_last_error(old(self).spec_session(), error@),
                    final(self).spec_session(),
                    channel_id,
                    error@,
                ) && handed_in_order(
                    old(self).player(),
                    old(self).spec_session(),
                    final(self).spec_session(),
                ),
                None => final(self).spec_session() == with_last_error(
                    old(self).spec_session(),
                    error@,
                ),
            },
    {
        proof {
            use_type_invariant(&*self);
        }
        let channel = match &self.session.state {
            PlaybackState::Loading { channel_id, .. } => Some(channel_id.clone()),
            PlaybackState::Playing { channel_id, .. } => Some(channel_id.clone()),
            PlaybackState::Retrying { channel_id, .. } => Some(channel_id.clone()),
            _ => None,
        };
        match channel {
            Some(channel_id) => {
                let mut session = Session::idle();
                std::mem::swap(&mut session, &mut self.session);
                session.last_error = Some(error.to_owned());
                try_candidates(&self.player, &mut session, &channel_id, error.to_owned());
                self.session = session;
            },
            None => {
                self.session.last_error = Some(error.to_owned());
            },
        }
        Ok(())
    }

    /// Playback ended: the state becomes stopped.
    fn on_playback_stopped(&mut self) -> (r: Result<(), PortError>)
        ensures
            r is Ok,
            final(self).resolver() == old(self).resolver(),
            final(self).player() == old(self).player(),
            session_wf(final(self).spec_session()),
            final(self).spec_session() == with_state(
                old(self).spec_session(),
                PlaybackStateView::Stopped,
            ),
    {
        proof {
            use_type_invariant(&*self);
        }
        self.session.state = PlaybackState::Stopped;
        Ok(())
    }
}


/// Playing with fallback: when a channel has candidate streams, `play` hands
/// them to the player one after another, in the order the resolver gave them,
/// each at most once, and moves on to the next candidate exactly when the
/// player refused the previous one. So when playback is loading, the first
/// candidate was handed over and accepted; when it is retrying at attempt
/// `k`, the first `k - 1` candidates were handed over and refused and the
/// `k`-th was handed over and accepted; when it failed, every candidate was
/// handed over and refused. The attempted streams are the URLs of the
/// candidates handed over, in order.
pub proof fn lemma_play_falls_back_in_order<R: StreamResolver, P: PlayerController>(
    before: IptvPlaybackController<R, P>,
    after: IptvPlaybackController<R, P>,
    channel_id: Seq<char>,
)
    requires
        before.spec_plays(after, channel_id),
        after.spec_session().candidates.len() > 0,
    ensures
        ({
            let s = after.spec_session();
            let c = s.candidates;
            let n = s.attempted.len();
            let player = before.player();
            &&& c == before.resolver().spec_candidate_streams(channel_id)
            &&& 1 <= n <= c.len()
            &&& forall|j: int| 0 <= j < n ==> #[trigger] s.attempted[j] == c[j].url
            &&& match s.state {
                PlaybackStateView::Loading { channel_id: ch, attempt } => ch == channel_id
                    && attempt == 1 && n == 1 && accepted(player, c[0]),
                PlaybackStateView::Retrying { channel_id: ch, attempt, .. } => ch == channel_id
                    && attempt == n && n >= 2 && accepted(player, c[n - 1]) && forall|j: int|
                    0 <= j < n - 1 ==> refused(player, #[trigger] c[j]),
                PlaybackStateView::Failed { channel_id: ch, .. } => ch == channel_id && n
                    == c.len() && forall|j: int| 0 <= j < n ==> refused(player, #[trigger] c[j]),
                _ => false,
            }
        }),
{
    let s = after.spec_session();
    let c = s.candidates;
    let n = s.attempted.len();
    let player = before.player();
    let idle = PlaybackSession {
        state: PlaybackStateView::Idle,
        candidates: c,
        attempted: Seq::empty(),
        last_error: before.spec_session().last_error,
    };
    assert(handed_in_order(player, idle, s));
    assert(s.attempted.subrange(0, 0) == idle.attempted);
    match s.state {
        PlaybackStateView::Loading { .. } => {
            assert(c[0] == c[n - 1]);
        },
        PlaybackStateView::Retrying { .. } => {
            assert forall|j: int| 0 <= j < n - 1 implies refused(player, #[trigger] c[j]) by {
                assert(c[j] == s.candidates[j]);
            }
        },
        PlaybackStateView::Failed { .. } => {
            assert forall|j: int| 0 <= j < n implies refused(player, #[trigger] c[j]) by {
                assert(c[j] == s.candidates[j]);
            }
        },
        _ => {},
    }
}


/// Seeking forwards the requested position: after `seek(seconds)` the state,
/// candidates and attempted streams are unchanged, and either the last error
/// is unchanged and the player may answer success to seeking to `seconds`,
/// or the last error is the message of an error the player may answer to
/// seeking to `seconds`.
pub proof fn lemma_seek_asks_the_player_for_that_position<R: StreamResolver, P: PlayerController>(
    before: IptvPlaybackController<R, P>,
    after: IptvPlaybackController<R, P>,
    seconds: u32,
)
    requires
        before.spec_seeks(after, seconds),
    ensures
        after.spec_session().state == before.spec_session().state,
        after.spec_session().candidates == before.spec_session().candidates,
        after.spec_session().attempted == before.spec_session().attempted,
        (after.spec_session().last_error == before.spec_session().last_error
            && before.player().spec_seek_answer(seconds, Ok(()))) || exists|e: PortError|
            #[trigger] before.player().spec_seek_answer(seconds, Err(e))
                && after.spec_session().last_error == Some(e.message@),
{
    let a = choose|a: Result<(), PortError>|
        #[trigger] before.player().spec_seek_answer(seconds, a) && after.spec_session()
            == after_command(before.spec_session(), a);
    match a {
        Ok(u) => {
            assert(u == ());
            assert(a == Ok::<(), PortError>(()));
        },
        Err(e) => {
            assert(before.player().spec_seek_answer(seconds, Err(e)));
        },
    }
}

/// Pausing asks the player to pause: after `pause()` the state, candidates
/// and attempted streams are unchanged, and either the last error is
/// unchanged and the player may answer success to pausing, or the last error
/// is the message of an error the player may answer to pausing.
pub proof fn lemma_pause_asks_the_player<R: StreamResolver, P: PlayerController>(
    before: IptvPlaybackController<R, P>,
    after: IptvPlaybackController<R, P>,
)
    requires
        before.spec_pauses(after),
    ensures
        after.spec_session().state == before.spec_session().state,
        after.spec_session().candidates == before.spec_session().candidates,
        after.spec_session().attempted == before.spec_session().attempted,
        (after.spec_session().last_error == before.spec_session().last_error
            && before.player().spec_pause_answer(Ok(()))) || exists|e: PortError|
            #[trigger] before.player().spec_pause_answer(Err(e))
                && after.spec_session().last_error == Some(e.message@),
{
    let a = choose|a: Result<(), PortError>|
        #[trigger] before.player().spec_pause_answer(a) && after.spec_session()
            == after_command(before.spec_session(), a);
    match a {
        Ok(u) => {
            assert(u == ());
            assert(a == Ok::<(), PortError>(()));
        },
        Err(e) => {
            assert(before.player().spec_pause_answer(Err(e)));
        },
    }
}

/// Stopping asks the player to stop, and playback is stopped exactly when the
/// player may answer success: after `stop()` the candidates and attempted
/// streams are unchanged, and either the state is stopped, the last error is
/// unchanged and the player may answer success to stopping, or the state is
/// unchanged and the last error is the message of an error the player may
/// answer to stopping.
pub proof fn lemma_stop_asks_the_player<R: StreamResolver, P: PlayerController>(
    before: IptvPlaybackController<R, P>,
    after: IptvPlaybackController<R, P>,
)
    requires
        before.spec_stops(after),
    ensures
        after.spec_session().candidates == before.spec_session().candidates,
        after.spec_session().attempted == before.spec_session().attempted,
        (after.spec_session().state == PlaybackStateView::Stopped
            && after.spec_session().last_error == before.spec_session().last_error
            && before.player().spec_stop_answer(Ok(()))) || exists|e: PortError|
            #[trigger] before.player().spec_stop_answer(Err(e)) && after.spec_session().state
                == before.spec_session().state && after.spec_session().last_error == Some(
                e.message@,
            ),
{
    let a = choose|a: Result<(), PortError>|
        #[trigger] before.player().spec_stop_answer(a) && after.spec_session() == after_stop(
            before.spec_session(),
            a,
        );
    match a {
        Ok(u) => {
            assert(u == ());
            assert(a == Ok::<(), PortError>(()));
        },
        Err(e) => {
            assert(before.player().spec_stop_answer(Err(e)));
        },
    }
}

} // verus!

//! What a player adapter decides around a media pipeline: the request
//! headers that a stream's source needs, and the playback event that each
//! message of the pipeline's bus stands for while a candidate stream loads.
use crate::domain::{Stream, StreamView};
use vstd::prelude::*;

verus! {

/// The request headers a stream's source is set up with: its user agent and
/// its referrer, each only when the stream names one.
pub open spec fn spec_stream_headers(s: StreamView) -> Seq<(Seq<char>, Seq<char>)> {
    let ua: Seq<(Seq<char>, Seq<char>)> = if s.user_agent.len() == 0 {
        Seq::empty()
    } else {
        seq![("User-Agent"@, s.user_agent)]
    };
    let referer: Seq<(Seq<char>, Seq<char>)> = if s.referrer.len() == 0 {
        Seq::empty()
    } else {
        seq![("Referer"@, s.referrer)]
    };
    ua + referer
}

/// The request headers (name, value) to set on the source of `stream`.
pub fn stream_headers(stream: &Stream) -> (r: Vec<(String, String)>)
    ensures
        r.deep_view() == spec_stream_headers(stream@),
{
    let mut r: Vec<(String, String)> = Vec::new();
    if !stream.user_agent.as_str().is_empty() {
        r.push(("User-Agent".to_owned(), stream.user_agent.clone()));
    }
    if !stream.referrer.as_str().is_empty() {
        r.push(("Referer".to_owned(), stream.referrer.clone()));
    }
    proof {
        assert(r.deep_view() =~= spec_stream_headers(stream@));
    }
    r
}

/// A bus message of a media pipeline, as far as playback control reads it.
#[derive(Debug, PartialEq)]
pub enum PipelineMessage {
    /// The pipeline finished its asynchronous state change: playback began.
    AsyncDone,
    /// The pipeline reported an error, with its description.
    Error { description: String },
    /// The stream reached its end.
    EndOfStream,
    /// The pipeline changed state.
    StateChanged,
    /// Any other message.
    Other,
}

/// A playback event, as reported to a playback listener.
#[derive(Debug, PartialEq)]
pub enum PlaybackEvent {
    Started,
    Failed { error: String },
    Stopped,
}

pub enum PlaybackEventView {
    Started,
    Failed { error: Seq<char> },
    Stopped,
}

impl View for PlaybackEvent {
    type V = PlaybackEventView;

    open spec fn view(&self) -> PlaybackEventView {
        match self {
            PlaybackEvent::Started => PlaybackEventView::Started,
            PlaybackEvent::Failed { error } => PlaybackEventView::Failed { error: error@ },
            PlaybackEvent::Stopped => PlaybackEventView::Stopped,
        }
    }
}

/// The event a bus message stands for: the end of the asynchronous state
/// change is the start of playback, an error is a failure with its
/// description, the end of the stream stops playback; state changes and other
/// messages stand for no event.
pub open spec fn spec_playback_event_of(message: PipelineMessage) -> Option<PlaybackEventView> {
    match message {
        PipelineMessage::AsyncDone => Some(PlaybackEventView::Started),
        PipelineMessage::Error { description } => Some(
            PlaybackEventView::Failed { error: description@ },
        ),
        PipelineMessage::EndOfStream => Some(PlaybackEventView::Stopped),
        PipelineMessage::StateChanged => None,
        PipelineMessage::Other => None,
    }
}

/// The playback event a bus message stands for; watching the bus ends at the
/// first message that stands for one.
pub fn playback_event_of(message: PipelineMessage) -> (r: Option<PlaybackEvent>)
    ensures
        match r {
            Some(e) => spec_playback_event_of(message) == Some(e@),
            None => spec_playback_event_of(message) is None,
        },
{
    match message {
        PipelineMessage::AsyncDone => Some(PlaybackEvent::Started),
        PipelineMessage::Error { description } => Some(PlaybackEvent::Failed { error: description }),
        PipelineMessage::EndOfStream => Some(PlaybackEvent::Stopped),
        PipelineMessage::StateChanged => None,
        PipelineMessage::Other => None,
    }
}

} // verus!

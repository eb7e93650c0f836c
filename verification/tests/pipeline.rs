use iptv_core::domain::Stream;
use iptv_core::pipeline::{playback_event_of, stream_headers, PipelineMessage, PlaybackEvent};

fn stream(referrer: &str, user_agent: &str) -> Stream {
    Stream {
        channel_id: "ch1".to_string(),
        feed_id: String::new(),
        url: "https://example.com/index.m3u8".to_string(),
        quality: String::new(),
        referrer: referrer.to_string(),
        title: "Example".to_string(),
        user_agent: user_agent.to_string(),
    }
}

#[test]
fn stream_without_referrer_or_user_agent_needs_no_headers() {
    assert!(stream_headers(&stream("", "")).is_empty());
}

#[test]
fn stream_headers_carry_user_agent_then_referrer() {
    let headers = stream_headers(&stream("https://bitmovin.com/", "Mozilla/5.0 (X11; Linux)"));
    assert_eq!(
        headers,
        vec![
            ("User-Agent".to_string(), "Mozilla/5.0 (X11; Linux)".to_string()),
            ("Referer".to_string(), "https://bitmovin.com/".to_string()),
        ]
    );
    let only_referrer = stream_headers(&stream("https://required-referrer.example.com/", ""));
    assert_eq!(
        only_referrer,
        vec![("Referer".to_string(), "https://required-referrer.example.com/".to_string())]
    );
}

#[test]
fn bus_messages_map_to_playback_events() {
    assert_eq!(playback_event_of(PipelineMessage::AsyncDone), Some(PlaybackEvent::Started));
    assert_eq!(
        playback_event_of(PipelineMessage::Error { description: "not found".to_string() }),
        Some(PlaybackEvent::Failed { error: "not found".to_string() })
    );
    assert_eq!(playback_event_of(PipelineMessage::EndOfStream), Some(PlaybackEvent::Stopped));
    assert_eq!(playback_event_of(PipelineMessage::StateChanged), None);
    assert_eq!(playback_event_of(PipelineMessage::Other), None);
}

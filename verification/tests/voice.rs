use taskhomie::voice::{
    transcription_event, PttState, PushToTalkSession, TtsCache, VoiceSession, TTS_CACHE_LIMIT,
};

#[test]
fn push_to_talk_gathers_final_fragments() {
    let mut s = PushToTalkSession::new();
    assert!(!s.is_running());
    assert_eq!(s.start(), Ok(1));
    assert!(s.is_running());
    assert_eq!(s.transcript("hello", false), Some("hello".to_string()));
    assert_eq!(s.transcript("hello there", true), Some("hello there".to_string()));
    assert_eq!(s.transcript("", true), None);
    assert_eq!(s.transcript("how", false), Some("hello there how".to_string()));
    assert_eq!(s.transcript("how are you", true), Some("hello there how are you".to_string()));
    assert_eq!(s.stop(), 1);
    assert!(!s.is_running());
    // a late final fragment still counts
    s.transcript("bye", true);
    assert_eq!(s.finish_stop(), ("hello there how are you bye".to_string(), 1));
    // the transcript was handed out once: a second stop gives an empty text
    assert_eq!(s.stop(), 1);
    assert_eq!(s.finish_stop(), (String::new(), 1));
    assert!(!s.is_running());
}

#[test]
fn push_to_talk_refuses_second_start() {
    let mut s = PushToTalkSession::new();
    assert_eq!(s.start(), Ok(1));
    s.transcript("keep", true);
    assert_eq!(s.start(), Err("already running".to_string()));
    assert_eq!(s.session_id(), 1);
    s.stop();
    assert_eq!(s.start(), Ok(2));
    // a new session starts with an empty transcript
    assert_eq!(s.finish_stop(), (String::new(), 2));
}

#[test]
fn continuous_mode_start_stop() {
    let mut v = VoiceSession::new();
    assert!(!v.is_running());
    assert_eq!(v.start(), Ok(()));
    assert!(v.is_running());
    assert_eq!(v.start(), Err("already running".to_string()));
    v.stop();
    assert!(!v.is_running());
}

#[test]
fn transcription_events_skip_empty_text() {
    assert!(transcription_event("", true).is_none());
    let e = transcription_event("hi", false).unwrap();
    assert_eq!(e.text, "hi");
    assert!(!e.is_final);
}

#[test]
fn speech_cache_reads_back_and_evicts_oldest() {
    let mut c = TtsCache::new();
    assert_eq!(c.get("a"), None);
    c.insert("a", "A".to_string());
    assert_eq!(c.get("a"), Some("A".to_string()));
    c.insert("a", "A2".to_string());
    assert_eq!(c.get("a"), Some("A2".to_string()));
    assert_eq!(c.len(), 1);
    for i in 1..TTS_CACHE_LIMIT {
        c.insert(&format!("t{i}"), format!("v{i}"));
    }
    assert_eq!(c.len(), TTS_CACHE_LIMIT);
    c.insert("new", "N".to_string());
    assert_eq!(c.len(), TTS_CACHE_LIMIT);
    assert_eq!(c.get("a"), None);
    assert_eq!(c.get("t1"), Some("v1".to_string()));
    assert_eq!(c.get("new"), Some("N".to_string()));
}

#[test]
fn speech_cache_stores_base64_audio() {
    let mut c = TtsCache::new();
    let encoded = c.store("hi", b"hello");
    assert_eq!(encoded, "aGVsbG8=");
    assert_eq!(c.get("hi"), Some("aGVsbG8=".to_string()));
    // the RFC 4648 test vectors, and bytes that use `+` and `/`
    assert_eq!(c.store("a", b""), "");
    assert_eq!(c.store("b", b"f"), "Zg==");
    assert_eq!(c.store("c", b"fo"), "Zm8=");
    assert_eq!(c.store("d", b"foo"), "Zm9v");
    assert_eq!(c.store("e", b"foobar"), "Zm9vYmFy");
    assert_eq!(c.store("f", &[0xfb, 0xff, 0xbf]), "+/+/");
}

#[test]
fn push_to_talk_release_yields_result() {
    let mut st = PttState::new();
    st.keep_capture(Some("shot".to_string()), Some("computer".to_string()));
    assert_eq!(st.session.start(), Ok(1));
    st.current_session_id = 1;
    st.session.transcript("open mail", true);
    let (expected, stopped) = st.release();
    assert_eq!((expected, stopped), (1, 1));
    let r = st.collect(expected, stopped).unwrap();
    assert_eq!(r.text, "open mail");
    assert_eq!(r.screenshot, Some("shot".to_string()));
    assert_eq!(r.mode, Some("computer".to_string()));
    assert_eq!(r.session_id, 1);
    assert!(st.screenshot.is_none());
    assert!(st.mode.is_none());
}

#[test]
fn push_to_talk_stale_result_is_dropped() {
    let mut st = PttState::new();
    st.keep_capture(Some("shot".to_string()), None);
    assert_eq!(st.session.start(), Ok(1));
    st.current_session_id = 1;
    st.session.transcript("text", true);
    let (_, stopped) = st.release();
    assert!(st.collect(0, stopped).is_none());
    // the capture and transcript are cleared all the same
    assert!(st.screenshot.is_none());
    assert_eq!(st.session.finish_stop(), (String::new(), 1));
}

#[test]
fn keep_capture_keeps_old_values_when_none_given() {
    let mut st = PttState::new();
    st.keep_capture(Some("a".to_string()), Some("browser".to_string()));
    st.keep_capture(None, None);
    assert_eq!(st.screenshot, Some("a".to_string()));
    assert_eq!(st.mode, Some("browser".to_string()));
}

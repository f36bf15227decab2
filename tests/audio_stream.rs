use tcp_audio::audio_stream::{AudioStream, Role, SessionState};
use tcp_audio::error::StreamError;
use tcp_audio::handshake::{Handshake, Mode};

fn streaming(seconds: u8, capacity: usize, silence_timeout_us: u64) -> AudioStream<f32> {
    let mut s = AudioStream::new(Handshake { mode: Mode::Mic, seconds }, capacity, silence_timeout_us).unwrap();
    s.attach(Role::Producer);
    s.attach(Role::Consumer);
    s
}

#[test]
fn session_starts_once_both_sides_are_bound() {
    let mut s = AudioStream::<f32>::new(Handshake { mode: Mode::Sine, seconds: 5 }, 16, 50_000).unwrap();
    assert_eq!(s.state(), SessionState::Starting);
    assert_eq!(s.mode(), Mode::Sine);
    assert_eq!(s.remaining_us(), 5_000_000);
    assert_eq!(s.size_filled(), 0);
    assert_eq!(s.size_free(), 16);
    assert!(s.attach(Role::Producer));
    assert!(!s.attach(Role::Producer));
    assert_eq!(s.state(), SessionState::Starting);
    assert!(s.attach(Role::Consumer));
    assert_eq!(s.state(), SessionState::Streaming);
    assert!(!s.attach(Role::Consumer));
}

#[test]
fn zero_capacity_session_is_refused() {
    let r = AudioStream::<f32>::new(Handshake { mode: Mode::Mic, seconds: 5 }, 0, 50_000);
    assert!(matches!(r, Err(StreamError::Construction)));
}

#[test]
fn only_a_streaming_session_takes_input() {
    let mut s = AudioStream::<f32>::new(Handshake { mode: Mode::Mic, seconds: 5 }, 8, 50_000).unwrap();
    assert_eq!(s.produce(&[1.0]), Err(StreamError::Disconnected));
    assert!(matches!(s.consume_for_network(1, 0), Err(StreamError::Disconnected)));
    s.attach(Role::Producer);
    s.attach(Role::Consumer);
    assert_eq!(s.produce(&[1.0, 2.0]), Ok(()));
    s.disconnect(Role::Producer);
    assert_eq!(s.state(), SessionState::Draining);
    assert_eq!(s.produce(&[3.0]), Err(StreamError::Disconnected));
    assert_eq!(s.size_filled(), 2);
}

#[test]
fn producer_write_is_whole_or_nothing() {
    let mut s = streaming(5, 4, 50_000);
    assert_eq!(s.produce(&[1.0, 2.0, 3.0]), Ok(()));
    assert_eq!(s.produce(&[4.0, 5.0]), Err(StreamError::Overflow));
    assert_eq!(s.produce(&[0.0; 5]), Err(StreamError::OversizedRequest));
    assert_eq!(s.size_filled(), 3);
    let f = s.consume_for_network(4, 0).unwrap();
    assert_eq!(f.samples, vec![1.0, 2.0, 3.0]);
    assert_eq!(s.produce(&[4.0, 5.0]), Ok(()));
    assert_eq!(s.consume_for_network(4, 1).unwrap().samples, vec![4.0, 5.0]);
}

#[test]
fn playback_pads_an_underrun_with_silence() {
    let mut s = streaming(5, 16, 50_000);
    s.produce(&[0.1, 0.2, 0.3]).unwrap();
    let f = s.consume_for_playback(5, 0.0, 0).unwrap();
    assert_eq!(f.samples, vec![0.1, 0.2, 0.3, 0.0, 0.0]);
    assert_eq!(f.shortfall, 2);
    assert!(f.is_underrun());
    s.produce(&[0.4, 0.5, 0.6]).unwrap();
    let f = s.consume_for_playback(2, 0.0, 1_000).unwrap();
    assert_eq!(f.samples, vec![0.4, 0.5]);
    assert!(!f.is_underrun());
    assert_eq!(s.size_filled(), 1);
}

#[test]
fn network_consumer_sends_only_what_is_there() {
    let mut s = streaming(5, 16, 50_000);
    s.produce(&[0.1, 0.2, 0.3]).unwrap();
    let f = s.consume_for_network(5, 0).unwrap();
    assert_eq!(f.samples, vec![0.1, 0.2, 0.3]);
    assert_eq!(f.shortfall, 2);
    assert!(f.is_underrun());
}

#[test]
fn oversized_consumer_request_changes_nothing() {
    let mut s = streaming(5, 4, 50_000);
    s.produce(&[1.0]).unwrap();
    assert!(matches!(s.consume_for_playback(5, 0.0, 10), Err(StreamError::OversizedRequest)));
    assert!(matches!(s.consume_for_network(5, 10), Err(StreamError::OversizedRequest)));
    assert_eq!(s.size_filled(), 1);
    assert_eq!(s.remaining_us(), 5_000_000);
}

#[test]
fn countdown_takes_off_time_between_invocations() {
    let mut s = streaming(1, 8, 1_000_000);
    s.consume_for_network(1, 500_000).unwrap();
    assert_eq!(s.remaining_us(), 1_000_000);
    s.consume_for_network(1, 750_000).unwrap();
    assert_eq!(s.remaining_us(), 750_000);
    // A clock that goes backwards takes nothing off.
    s.consume_for_network(1, 700_000).unwrap();
    assert_eq!(s.remaining_us(), 750_000);
    s.set_duration(2_000_000);
    assert_eq!(s.remaining_us(), 2_000_000);
}

#[test]
fn three_second_session_drains_then_completes() {
    const FRAMES: usize = 256;
    const PERIOD_US: u64 = 5_805; // 256 frames at 44.1 kHz
    let mut s = streaming(3, 4096, 50_000);
    let block = vec![0.5f32; FRAMES];
    // A backlog of four periods ahead of the consumer.
    for _ in 0..4 {
        s.produce(&block).unwrap();
    }
    let mut t: u64 = 0;
    while s.state() == SessionState::Streaming {
        assert_eq!(s.produce(&block), Ok(()));
        let f = s.consume_for_playback(FRAMES, 0.0, t).unwrap();
        assert_eq!(f.samples.len(), FRAMES);
        t += PERIOD_US;
    }
    let ended_at = t - PERIOD_US;
    assert!(ended_at >= 3_000_000 && ended_at < 3_000_000 + PERIOD_US);
    assert_eq!(s.remaining_us(), 0);
    assert_eq!(s.state(), SessionState::Draining);
    assert_eq!(s.produce(&block), Err(StreamError::Disconnected));
    let mut drained = 0;
    while s.state() == SessionState::Draining {
        let f = s.consume_for_playback(FRAMES, 0.0, t).unwrap();
        assert!(!f.is_underrun());
        drained += 1;
        t += PERIOD_US;
    }
    assert_eq!(drained, 4);
    assert_eq!(s.state(), SessionState::Complete);
    assert_eq!(s.size_filled(), 0);
    assert!(matches!(s.consume_for_playback(FRAMES, 0.0, t), Err(StreamError::Disconnected)));
}

#[test]
fn stalled_producer_ends_the_session() {
    let mut s = streaming(10, 16, 50_000);
    s.produce(&[1.0]).unwrap();
    s.consume_for_network(4, 0).unwrap();
    s.consume_for_network(4, 20_000).unwrap();
    s.consume_for_network(4, 60_000).unwrap();
    assert_eq!(s.state(), SessionState::Streaming);
    // Data in between starts the wait afresh.
    s.produce(&[2.0]).unwrap();
    assert_eq!(s.consume_for_network(4, 65_000).unwrap().samples, vec![2.0]);
    s.consume_for_network(4, 80_000).unwrap();
    assert_eq!(s.state(), SessionState::Streaming);
    s.consume_for_network(4, 129_000).unwrap();
    assert_eq!(s.state(), SessionState::Streaming);
    s.consume_for_network(4, 130_000).unwrap();
    assert_eq!(s.state(), SessionState::Complete);
}

#[test]
fn producer_disconnect_drains_what_is_buffered() {
    let mut s = streaming(10, 16, 50_000);
    s.produce(&[1.0, 2.0, 3.0]).unwrap();
    s.disconnect(Role::Producer);
    assert_eq!(s.state(), SessionState::Draining);
    assert_eq!(s.consume_for_network(2, 0).unwrap().samples, vec![1.0, 2.0]);
    assert_eq!(s.state(), SessionState::Draining);
    assert_eq!(s.consume_for_network(2, 1).unwrap().samples, vec![3.0]);
    assert_eq!(s.state(), SessionState::Complete);
}

#[test]
fn consumer_disconnect_ends_the_session() {
    let mut s = streaming(10, 16, 50_000);
    s.produce(&[1.0]).unwrap();
    s.disconnect(Role::Consumer);
    assert_eq!(s.state(), SessionState::Complete);
    s.disconnect(Role::Producer);
    assert_eq!(s.state(), SessionState::Complete);
    let mut starting = AudioStream::<f32>::new(Handshake { mode: Mode::Mic, seconds: 1 }, 4, 0).unwrap();
    starting.disconnect(Role::Producer);
    assert_eq!(starting.state(), SessionState::Complete);
}

#[test]
fn zero_frame_requests_do_not_end_a_draining_session() {
    let mut s = streaming(10, 16, 50_000);
    s.produce(&[1.0, 2.0, 3.0]).unwrap();
    s.disconnect(Role::Producer);
    assert_eq!(s.state(), SessionState::Draining);
    let f = s.consume_for_playback(0, 0.0, 0).unwrap();
    assert!(f.samples.is_empty());
    assert!(!f.is_underrun());
    s.consume_for_playback(0, 0.0, 50_000).unwrap();
    s.consume_for_network(0, 200_000).unwrap();
    assert_eq!(s.state(), SessionState::Draining);
    assert_eq!(s.size_filled(), 3);
    assert_eq!(s.consume_for_network(3, 210_000).unwrap().samples, vec![1.0, 2.0, 3.0]);
    assert_eq!(s.state(), SessionState::Complete);
}

#[test]
fn zero_frame_requests_do_not_end_a_streaming_session() {
    let mut s = streaming(10, 16, 50_000);
    s.produce(&[1.0]).unwrap();
    s.consume_for_network(0, 0).unwrap();
    s.consume_for_network(0, 60_000).unwrap();
    s.consume_for_network(0, 120_000).unwrap();
    assert_eq!(s.state(), SessionState::Streaming);
    assert_eq!(s.size_filled(), 1);
    // Starvation counts only requests that find the buffer empty.
    s.consume_for_network(1, 130_000).unwrap();
    s.consume_for_network(1, 140_000).unwrap();
    s.consume_for_network(0, 500_000).unwrap();
    assert_eq!(s.state(), SessionState::Streaming);
    s.consume_for_network(1, 500_000).unwrap();
    assert_eq!(s.state(), SessionState::Complete);
}

use playfusion::app::audio::PlaybackState;
use playfusion::infrastructure::buffering::{BufferAction, BufferPolicy};
use playfusion::infrastructure::monitor::{
    finished_naturally, monitor_tick, playback_bitrate, seek_settled_state, FillStep, InitialFill,
    MonitorInput, MonitorStep, StreamEnd,
};
use playfusion::infrastructure::stream_buffer::{ReadStep, SeekFrom, SeekStep, StreamBuffer};

fn input(state: PlaybackState, buffered_ms: u64) -> MonitorInput {
    MonitorInput {
        current: true,
        state,
        error: None,
        cut: None,
        player_empty: false,
        buffered_ms,
        eof: false,
    }
}

#[test]
fn reader_streams_chunks_until_eof() {
    let mut b = StreamBuffer::new();
    assert_eq!(b.read_at(0, 4), (ReadStep::Wait, 0));
    b.append(&[1, 2, 3]);
    assert_eq!(b.read_at(0, 2), (ReadStep::Bytes(vec![1, 2]), 2));
    assert_eq!(b.read_at(2, 8), (ReadStep::Bytes(vec![3]), 3));
    assert_eq!(b.consumed(), 3);
    assert_eq!(b.read_at(3, 8), (ReadStep::Wait, 3));
    b.finish();
    assert_eq!(b.read_at(3, 8), (ReadStep::Eof, 3));
}

#[test]
fn cancel_reports_to_a_waiting_reader() {
    let mut b = StreamBuffer::new();
    b.cancel();
    assert!(b.failed());
    assert_eq!(b.read_at(0, 8), (ReadStep::Failed("reproducción cancelada".to_string()), 0));
    assert_eq!(b.error(), Some("reproducción cancelada".to_string()));
}

#[test]
fn cut_ends_the_stream_without_error() {
    let mut b = StreamBuffer::new();
    b.append(&[9]);
    b.set_cut("límite".to_string());
    assert!(b.eof());
    assert_eq!(b.cut(), Some("límite".to_string()));
    assert_eq!(b.read_at(0, 8), (ReadStep::Bytes(vec![9]), 1));
    assert_eq!(b.read_at(1, 8), (ReadStep::Eof, 1));
}

#[test]
fn seek_waits_for_the_target_and_rejects_bad_ones() {
    let mut b = StreamBuffer::new();
    b.append(&[0; 10]);
    assert_eq!(b.seek(0, SeekFrom::Start(4)), SeekStep::Moved(4));
    assert_eq!(b.seek(4, SeekFrom::Current(-2)), SeekStep::Moved(2));
    assert_eq!(b.seek(2, SeekFrom::Current(-3)), SeekStep::Invalid("posición negativa".to_string()));
    assert_eq!(b.seek(0, SeekFrom::Start(20)), SeekStep::Wait);
    assert_eq!(b.seek(0, SeekFrom::End(-1)), SeekStep::Wait, "the end is not known yet");
    b.finish();
    assert_eq!(b.seek(0, SeekFrom::End(-1)), SeekStep::Moved(9));
    assert_eq!(b.seek(0, SeekFrom::Start(20)), SeekStep::Invalid("seek más allá del final".to_string()));
    b.fail("red caída".to_string());
    assert_eq!(b.seek(0, SeekFrom::Start(1)), SeekStep::Failed("red caída".to_string()));
}

#[test]
fn buffered_time_uses_the_bitrate() {
    let mut b = StreamBuffer::new();
    b.append(&[0; 16_000]);
    assert_eq!(b.buffered_ms(), 0, "unknown bitrate");
    b.set_bitrate(128_000);
    assert_eq!(b.buffered_ms(), 1_000);
    b.note_consumed(8_000);
    assert_eq!(b.buffered_ms(), 500);
    b.note_consumed(4_000);
    assert_eq!(b.consumed(), 8_000, "the mark never goes back");
}

#[test]
fn monitor_pauses_warns_and_resumes() {
    let p = BufferPolicy::default();
    assert_eq!(
        monitor_tick(&p, input(PlaybackState::Playing, 1_000), true),
        MonitorStep::Act { action: BufferAction::PauseAndRefill, playing: false }
    );
    assert_eq!(
        monitor_tick(&p, input(PlaybackState::Buffering, 2_000), false),
        MonitorStep::Act { action: BufferAction::NoChange, playing: false }
    );
    assert_eq!(
        monitor_tick(&p, input(PlaybackState::Buffering, 4_000), false),
        MonitorStep::Act { action: BufferAction::Resume, playing: true }
    );
    assert_eq!(
        monitor_tick(&p, input(PlaybackState::Playing, 2_500), true),
        MonitorStep::Act { action: BufferAction::Warn, playing: true }
    );
}

#[test]
fn monitor_leaves_user_pause_and_seek_alone() {
    let p = BufferPolicy::default();
    assert_eq!(monitor_tick(&p, input(PlaybackState::Paused, 0), true), MonitorStep::Idle);
    assert_eq!(monitor_tick(&p, input(PlaybackState::Seeking, 0), true), MonitorStep::Idle);
    assert_eq!(monitor_tick(&p, input(PlaybackState::Stopped, 0), true), MonitorStep::Exit);
    let mut stale = input(PlaybackState::Playing, 0);
    stale.current = false;
    assert_eq!(monitor_tick(&p, stale, true), MonitorStep::Exit);
}

#[test]
fn monitor_reports_errors_and_cuts() {
    let p = BufferPolicy::default();
    let mut failed = input(PlaybackState::Playing, 0);
    failed.error = Some("403".to_string());
    assert_eq!(monitor_tick(&p, failed, true), MonitorStep::StopOnError("403".to_string()));

    let mut cut = input(PlaybackState::Playing, 0);
    cut.cut = Some("límite".to_string());
    assert_eq!(
        monitor_tick(&p, cut.clone(), true),
        MonitorStep::Act { action: BufferAction::PauseAndRefill, playing: false },
        "the prefix still plays"
    );
    cut.player_empty = true;
    cut.eof = true;
    assert_eq!(monitor_tick(&p, cut, true), MonitorStep::StopOnCut("límite".to_string()));

    let mut done = input(PlaybackState::Playing, 0);
    done.eof = true;
    done.player_empty = true;
    assert_eq!(monitor_tick(&p, done, true), MonitorStep::Exit);
}

#[test]
fn playback_bitrate_from_size_and_duration() {
    // 4 MB over 200 s: 160 kbit/s.
    assert_eq!(playback_bitrate(4_000_000, Some(200_000)), 160_000);
    // Tiny files never go below the fallback.
    assert_eq!(playback_bitrate(1_000, Some(200_000)), 128_000);
    // Unknown duration counts as one second.
    assert_eq!(playback_bitrate(100_000, None), 800_000);
    assert_eq!(playback_bitrate(100_000, Some(10)), 800_000);
}

#[test]
fn initial_fill_adapts_once_and_times_out() {
    let p = BufferPolicy::default();
    let mut f = InitialFill::new(&p);
    assert_eq!(f.target_ms, 4_000);
    assert_eq!(f.tick(None, false, 0, 128_000, 2_000, 0, 30_000), FillStep::Wait);
    // A fast network lowers the target to 1.5 s.
    assert_eq!(f.tick(None, false, 256_000, 128_000, 2_000, 10, 30_000), FillStep::Ready);
    assert_eq!(f.target_ms, 1_500);
    // Already adapted: a slow measure later does not change it.
    assert_eq!(f.tick(None, false, 1_000, 128_000, 1_000, 20, 30_000), FillStep::Wait);
    assert_eq!(f.target_ms, 1_500);
    assert_eq!(
        f.tick(None, false, 1_000, 128_000, 1_000, 30_001, 30_000),
        FillStep::Failed("el stream no llena el buffer inicial (red demasiado lenta o cortada)".to_string())
    );
    assert_eq!(f.tick(None, true, 0, 0, 0, 0, 0), FillStep::Ready);
    assert_eq!(f.tick(Some("x".to_string()), true, 0, 0, 0, 0, 0), FillStep::Failed("x".to_string()));
}

#[test]
fn seek_settles_by_confirmation_and_prior_state() {
    assert_eq!(seek_settled_state(true, true, false), PlaybackState::Paused);
    assert_eq!(seek_settled_state(true, false, true), PlaybackState::Playing);
    assert_eq!(seek_settled_state(false, false, true), PlaybackState::Playing);
    assert_eq!(seek_settled_state(false, true, false), PlaybackState::Stopped);
}

#[test]
fn only_a_clean_end_is_finished() {
    let clean = StreamEnd { eof: true, failed: false, cut: false };
    assert!(finished_naturally(PlaybackState::Playing, true, Some(clean)));
    assert!(finished_naturally(PlaybackState::Paused, true, None));
    assert!(!finished_naturally(PlaybackState::Playing, false, Some(clean)));
    assert!(!finished_naturally(PlaybackState::Buffering, true, Some(clean)));
    assert!(!finished_naturally(PlaybackState::Stopped, true, Some(clean)));
    let failed = StreamEnd { failed: true, ..clean };
    let cut = StreamEnd { cut: true, ..clean };
    let unfinished = StreamEnd { eof: false, ..clean };
    assert!(!finished_naturally(PlaybackState::Playing, true, Some(failed)));
    assert!(!finished_naturally(PlaybackState::Playing, true, Some(cut)));
    assert!(!finished_naturally(PlaybackState::Playing, true, Some(unfinished)));
}

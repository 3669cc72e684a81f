use std::collections::VecDeque;

use kanpe::mixer::{extend_buffer_with_cap, frames_to_ms, mix_two_buffers, DominantSource};
use kanpe::pcm::{interleaved_to_mono_i16, pcm_i16_to_le_bytes, split_complete_samples};
use kanpe::resample::resample_i16_mono;
use kanpe::stream::{
    advance_phase, drain_audio_backlog, mix_loop_step, single_loop_step, ErrorKind, MixLoopAction,
    MixLoopEvent, MixLoopState, PhaseEvent, SingleLoopAction, SingleLoopEvent, SingleLoopState,
    StreamPhase,
};

#[test]
fn resampling_empty_input_yields_empty_output() {
    for (from, to) in [(8000u32, 16000u32), (44100, 16000), (16000, 16000), (0, 16000)] {
        let out = resample_i16_mono(&Vec::new(), from, to);
        assert!(out.is_empty());
    }
}

#[test]
fn resampling_with_equal_rates_returns_input_unchanged() {
    let input = vec![3i16, -7, 12000, -32768, 32767];
    for rate in [8000u32, 16000, 44100, 48000] {
        assert_eq!(resample_i16_mono(&input, rate, rate), input);
    }
}

#[test]
fn resampling_with_zero_rate_returns_input_unchanged() {
    let input = vec![5i16, 6, 7];
    assert_eq!(resample_i16_mono(&input, 0, 16000), input);
    assert_eq!(resample_i16_mono(&input, 16000, 0), input);
}

#[test]
fn upsampling_interpolates_between_samples() {
    let out = resample_i16_mono(&vec![0i16, 100], 8000, 16000);
    assert_eq!(out, vec![0, 50, 100, 100]);
}

#[test]
fn downsampling_halves_the_length() {
    let out = resample_i16_mono(&vec![0i16, 10, 20, 30], 16000, 8000);
    assert_eq!(out.len(), 2);
    assert_eq!(out[0], 0);
    assert_eq!(out[1], 20);
}

#[test]
fn mixed_samples_stay_in_sixteen_bit_range() {
    let mut p: VecDeque<i16> = VecDeque::from(vec![i16::MAX, i16::MIN, i16::MAX, i16::MIN]);
    let mut s: VecDeque<i16> = VecDeque::from(vec![i16::MAX, i16::MIN, i16::MIN, i16::MAX]);
    let out = mix_two_buffers(&mut p, &mut s, 320).unwrap();
    assert_eq!(out, vec![i16::MAX, i16::MIN, 0, 0]);
    for sample in out {
        assert!((i16::MIN..=i16::MAX).contains(&sample));
    }
}

#[test]
fn mixing_silence_yields_silence() {
    let mut p: VecDeque<i16> = VecDeque::from(vec![0i16; 320]);
    let mut s: VecDeque<i16> = VecDeque::from(vec![0i16; 320]);
    let out = mix_two_buffers(&mut p, &mut s, 320).unwrap();
    assert_eq!(out, vec![0i16; 320]);
    assert!(p.is_empty() && s.is_empty());
}

#[test]
fn mixing_substitutes_silence_for_exhausted_side() {
    let mut p: VecDeque<i16> = VecDeque::new();
    let mut s: VecDeque<i16> = VecDeque::from(vec![100i16, -101]);
    let out = mix_two_buffers(&mut p, &mut s, 320).unwrap();
    assert_eq!(out, vec![50, -50]);
}

#[test]
fn mixing_empty_buffers_yields_nothing() {
    let mut p: VecDeque<i16> = VecDeque::new();
    let mut s: VecDeque<i16> = VecDeque::new();
    assert!(mix_two_buffers(&mut p, &mut s, 320).is_none());
}

#[test]
fn mixing_emits_at_least_one_frame_even_with_zero_chunk_size() {
    let mut p: VecDeque<i16> = VecDeque::from(vec![7i16]);
    let mut s: VecDeque<i16> = VecDeque::new();
    let out = mix_two_buffers(&mut p, &mut s, 0).unwrap();
    assert_eq!(out, vec![3]);
}

#[test]
fn backlog_never_exceeds_cap_and_reports_exact_drop_count() {
    let mut buf: VecDeque<i16> = VecDeque::new();
    let mut total_dropped = 0usize;
    let mut total_fed = 0usize;
    for chunk_no in 0..10u16 {
        let chunk = vec![chunk_no as i16; 7];
        total_fed += chunk.len();
        total_dropped += extend_buffer_with_cap(&mut buf, &chunk, 25);
        assert!(buf.len() <= 25);
    }
    assert_eq!(total_dropped, total_fed - buf.len());
}

#[test]
fn backlog_trims_oldest_from_the_front() {
    let mut buf: VecDeque<i16> = VecDeque::from(vec![1i16, 2, 3, 4]);
    let dropped = extend_buffer_with_cap(&mut buf, &[5, 6, 7], 5);
    assert_eq!(dropped, 2);
    assert_eq!(buf, VecDeque::from(vec![3i16, 4, 5, 6, 7]));
}

#[test]
fn empty_chunk_leaves_backlog_unchanged() {
    let mut buf: VecDeque<i16> = VecDeque::from(vec![9i16; 30]);
    let dropped = extend_buffer_with_cap(&mut buf, &[], 5);
    assert_eq!(dropped, 0);
    assert_eq!(buf.len(), 30);
}

#[test]
fn drain_keeps_only_newest_chunk_and_counts_drains() {
    let mut queued: VecDeque<Vec<i16>> = VecDeque::from(vec![vec![1i16], vec![2], vec![3]]);
    let (latest, dropped) = drain_audio_backlog(&mut queued, vec![0i16]);
    assert_eq!(latest, vec![3]);
    assert_eq!(dropped, 3);
    assert!(queued.is_empty());
}

#[test]
fn drain_is_bounded_per_poll() {
    let mut queued: VecDeque<Vec<i16>> = (0..40i16).map(|i| vec![i]).collect();
    let (latest, dropped) = drain_audio_backlog(&mut queued, vec![-1i16]);
    assert_eq!(dropped, 32);
    assert_eq!(latest, vec![31]);
    assert_eq!(queued.len(), 8);
}

#[test]
fn dual_source_loop_survives_one_source_closing() {
    let mut st = MixLoopState::new(16000, 16000);
    assert!(matches!(
        mix_loop_step(&mut st, MixLoopEvent::SecondaryChunk(vec![100i16; 4])),
        MixLoopAction::Continue
    ));
    assert!(matches!(
        mix_loop_step(&mut st, MixLoopEvent::PrimaryClosed),
        MixLoopAction::Continue
    ));
    match mix_loop_step(&mut st, MixLoopEvent::Tick) {
        MixLoopAction::Send(out) => assert_eq!(out, vec![50i16; 4]),
        _ => panic!("expected audio mixed from the secondary source alone"),
    }
    assert!(matches!(
        mix_loop_step(&mut st, MixLoopEvent::SecondaryClosed),
        MixLoopAction::Continue
    ));
    assert!(matches!(mix_loop_step(&mut st, MixLoopEvent::Tick), MixLoopAction::Finish));
}

#[test]
fn dual_source_loop_sends_and_finishes_on_final_tick() {
    let mut st = MixLoopState::new(16000, 16000);
    mix_loop_step(&mut st, MixLoopEvent::PrimaryChunk(vec![10i16, 20]));
    mix_loop_step(&mut st, MixLoopEvent::PrimaryClosed);
    mix_loop_step(&mut st, MixLoopEvent::SecondaryClosed);
    match mix_loop_step(&mut st, MixLoopEvent::Tick) {
        MixLoopAction::SendThenFinish(out) => assert_eq!(out, vec![5i16, 10]),
        _ => panic!("expected the loop to emit the remainder and finish"),
    }
}

#[test]
fn dual_source_loop_stops_immediately_on_stop_signal() {
    let mut st = MixLoopState::new(16000, 16000);
    mix_loop_step(&mut st, MixLoopEvent::PrimaryChunk(vec![1i16; 8]));
    assert!(matches!(mix_loop_step(&mut st, MixLoopEvent::Stop), MixLoopAction::Finish));
}

#[test]
fn dual_source_loop_caps_its_backlogs() {
    let mut st = MixLoopState::new(16000, 16000);
    for _ in 0..4 {
        mix_loop_step(&mut st, MixLoopEvent::PrimaryChunk(vec![1i16; 6000]));
    }
    assert!(st.buf_primary.len() <= 19200);
    assert_eq!(st.dropped_primary_frames, 4 * 6000 - 19200);
}

#[test]
fn single_source_loop_resamples_and_forwards() {
    let mut st = SingleLoopState { source_rate: 16000, dropped_chunks: 0 };
    match single_loop_step(&mut st, SingleLoopEvent::Chunk(vec![4i16, 5, 6], 2)) {
        SingleLoopAction::Send(out) => assert_eq!(out, vec![4, 5, 6]),
        _ => panic!("expected the chunk forwarded"),
    }
    assert_eq!(st.dropped_chunks, 2);
    assert!(matches!(single_loop_step(&mut st, SingleLoopEvent::Stop), SingleLoopAction::Finish));
    assert!(matches!(
        single_loop_step(&mut st, SingleLoopEvent::Closed),
        SingleLoopAction::Finish
    ));
}

#[test]
fn phase_table_rejects_a_start_without_sources() {
    let (phase, err) = advance_phase(
        StreamPhase::Idle,
        PhaseEvent::StartRequested { configured: 0 },
    );
    assert_eq!(phase, StreamPhase::Stopped);
    assert_eq!(err, Some(ErrorKind::NoInputSource));
}

#[test]
fn phase_table_walks_a_successful_session() {
    let (p1, e1) = advance_phase(StreamPhase::Idle, PhaseEvent::StartRequested { configured: 2 });
    assert_eq!((p1, e1), (StreamPhase::SourcesInitializing, None));
    let (p2, e2) = advance_phase(p1, PhaseEvent::SourcesSetUp { opened: 2 });
    assert_eq!((p2, e2), (StreamPhase::SourcesReady, None));
    let (p3, e3) = advance_phase(p2, PhaseEvent::BackendReady);
    assert_eq!((p3, e3), (StreamPhase::Streaming, None));
    let (p4, e4) = advance_phase(p3, PhaseEvent::StopSignal);
    assert_eq!((p4, e4), (StreamPhase::Draining, None));
    let (p5, e5) = advance_phase(p4, PhaseEvent::TeardownComplete);
    assert_eq!((p5, e5), (StreamPhase::Stopped, None));
}

#[test]
fn phase_table_surfaces_fatal_errors() {
    let (_, err) =
        advance_phase(StreamPhase::SourcesInitializing, PhaseEvent::SourcesSetUp { opened: 0 });
    assert_eq!(err, Some(ErrorKind::NoUsableSource));
    let (_, err) = advance_phase(StreamPhase::SourcesReady, PhaseEvent::BackendFailed);
    assert_eq!(err, Some(ErrorKind::BackendStartupFailure));
    let (phase, err) = advance_phase(StreamPhase::Streaming, PhaseEvent::BackendIoFailed);
    assert_eq!(phase, StreamPhase::Draining);
    assert_eq!(err, Some(ErrorKind::BackendIoError));
}

#[test]
fn pcm_encodes_little_endian_pairs() {
    assert_eq!(pcm_i16_to_le_bytes(&[1i16, -2]), vec![0x01, 0x00, 0xFE, 0xFF]);
    assert_eq!(pcm_i16_to_le_bytes(&[]), Vec::<u8>::new());
}

#[test]
fn byte_reassembly_carries_partial_sample_forward() {
    let mut pending = vec![0x34u8, 0x12, 0x78];
    let samples = split_complete_samples(&mut pending);
    assert_eq!(samples, vec![0x1234i16]);
    assert_eq!(pending, vec![0x78u8]);
    pending.push(0x56);
    let more = split_complete_samples(&mut pending);
    assert_eq!(more, vec![0x5678i16]);
    assert!(pending.is_empty());
}

#[test]
fn interleaved_frames_average_to_mono() {
    assert_eq!(interleaved_to_mono_i16(&[10i16, 20, 30, 40], 2), vec![15, 35]);
    assert_eq!(interleaved_to_mono_i16(&[10i16, -21], 2), vec![-5]);
    assert_eq!(interleaved_to_mono_i16(&[7i16, 8, 9], 1), vec![7, 8, 9]);
    assert_eq!(interleaved_to_mono_i16(&[7i16, 8, 9], 0), vec![7, 8, 9]);
    assert_eq!(interleaved_to_mono_i16(&[3i16, 6, 9, 12, 100], 4), vec![7, 100]);
}

#[test]
fn frame_counts_convert_to_milliseconds() {
    assert_eq!(frames_to_ms(16000), 1000);
    assert_eq!(frames_to_ms(320), 20);
    assert_eq!(frames_to_ms(0), 0);
}

#[test]
fn dominant_source_labels() {
    assert_eq!(DominantSource::Mic.as_str(), "MIC");
    assert_eq!(DominantSource::Sys.as_str(), "SYS");
    assert_eq!(DominantSource::Balanced.as_str(), "BALANCED");
    assert_eq!(DominantSource::Unknown.as_str(), "UNKNOWN");
}

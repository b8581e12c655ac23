use enja::audio::samples_to_wav;
use std::io::Cursor;

#[test]
fn samples_to_wav_writes_valid_header_and_samples() {
    let samples = vec![0_i16, i16::MAX, i16::MIN + 1, 42];
    let wav = samples_to_wav(&samples, 16_000, 1).expect("wav");
    let cursor = Cursor::new(wav);
    let reader = hound::WavReader::new(cursor).expect("reader");

    assert_eq!(reader.spec().sample_rate, 16_000);
    assert_eq!(reader.spec().channels, 1);
    assert_eq!(reader.into_samples::<i16>().count(), samples.len());
}

#[test]
fn samples_to_wav_keeps_the_samples_in_order() {
    let samples = vec![1_i16, -2, 3, -4];
    let wav = samples_to_wav(&samples, 8_000, 2).expect("wav");
    assert_eq!(&wav[0..4], b"RIFF");
    let reader = hound::WavReader::new(Cursor::new(wav)).expect("reader");
    assert_eq!(reader.spec().channels, 2);
    let read: Vec<i16> = reader.into_samples::<i16>().map(|s| s.expect("sample")).collect();
    assert_eq!(read, samples);
}

#[test]
fn samples_to_wav_rejects_an_unfinished_frame() {
    let err = samples_to_wav(&vec![1_i16, 2, 3], 16_000, 2).unwrap_err();
    assert_eq!(err, "The number of samples written is not a multiple of the number of channels.");
}

use enja::audio::{detect_voice_segments, FrameClass, SegmentConfig, VoiceSegment};

fn class(level: u8) -> FrameClass {
    FrameClass { strong: level >= 3, weak: level >= 2, continuation: level >= 1 }
}

fn config() -> SegmentConfig {
    SegmentConfig {
        min_start_frames: 2,
        min_segment_frames: 3,
        prefix_padding_frames: 1,
        post_padding_frames: 1,
        end_silence_frames: 2,
        short_gap_merge_frames: 1,
        terminal_protection_frames: 1,
    }
}

#[test]
fn voice_segments_follow_the_speech() {
    // silence, a strong frame, speech, silence long enough to close, more silence, speech run.
    let levels = [0, 0, 3, 2, 1, 0, 0, 0, 0, 0, 2, 2, 2, 0, 0, 0, 0, 0];
    let classes: Vec<FrameClass> = levels.iter().map(|l| class(*l)).collect();
    let (segments, speech) = detect_voice_segments(&classes, &config(), false);
    assert_eq!(
        segments,
        vec![
            VoiceSegment { start_frame: 1, end_frame: 6 },
            VoiceSegment { start_frame: 9, end_frame: 14 },
        ]
    );
    assert_eq!(speech, 5);
}

#[test]
fn silence_keeps_nothing_unless_a_voice_may_be_there() {
    let classes = vec![class(0); 6];
    assert_eq!(detect_voice_segments(&classes, &config(), false), (vec![], 0));
    assert_eq!(
        detect_voice_segments(&classes, &config(), true),
        (vec![VoiceSegment { start_frame: 0, end_frame: 6 }], 6)
    );
    assert_eq!(detect_voice_segments(&vec![], &config(), true), (vec![], 0));
}

#[test]
fn a_segment_still_open_runs_to_the_end() {
    let levels = [0, 0, 0, 3, 2, 2, 1];
    let classes: Vec<FrameClass> = levels.iter().map(|l| class(*l)).collect();
    let (segments, speech) = detect_voice_segments(&classes, &config(), false);
    assert_eq!(segments, vec![VoiceSegment { start_frame: 2, end_frame: 7 }]);
    assert_eq!(speech, 3);
}

#[test]
fn recording_limits_and_stop_decisions() {
    assert_eq!(enja::audio::recording_limit_secs(1), 5);
    assert_eq!(enja::audio::recording_limit_secs(90), 90);
    assert_eq!(enja::audio::recording_limit_secs(3_600), 600);
    assert_eq!(enja::audio::recording_max_samples(16_000, 1, 90), 1_440_000);
    assert_eq!(enja::audio::recording_max_samples(48_000, 2, 0), 480_000);

    let finish = enja::audio::RecorderCommand::Finish;
    let cancel = enja::audio::RecorderCommand::Cancel;
    assert_eq!(enja::audio::command_after_wait(enja::audio::RecorderWait::Received(cancel)), cancel);
    assert_eq!(enja::audio::command_after_wait(enja::audio::RecorderWait::TimedOut), finish);
    assert_eq!(enja::audio::command_after_wait(enja::audio::RecorderWait::Disconnected), cancel);

    assert_eq!(
        enja::audio::recording_stop_result(cancel, 100),
        Err("録音をキャンセルしました。".to_string())
    );
    assert_eq!(enja::audio::recording_stop_result(finish, 0), Err("音声が録音されていません。".to_string()));
    assert_eq!(enja::audio::recording_stop_result(finish, 1), Ok(()));
}

#[test]
fn samples_to_wav_lays_out_the_plain_pcm_header() {
    let wav = samples_to_wav(&vec![1_i16, -2], 16_000, 1).expect("wav");
    let mut expected: Vec<u8> = Vec::new();
    expected.extend_from_slice(b"RIFF");
    expected.extend_from_slice(&[40, 0, 0, 0]);
    expected.extend_from_slice(b"WAVEfmt ");
    expected.extend_from_slice(&[16, 0, 0, 0, 1, 0, 1, 0]);
    expected.extend_from_slice(&[0x80, 0x3e, 0, 0, 0x00, 0x7d, 0, 0, 2, 0, 16, 0]);
    expected.extend_from_slice(b"data");
    expected.extend_from_slice(&[4, 0, 0, 0, 1, 0, 0xfe, 0xff]);
    assert_eq!(wav, expected);
}

#[test]
fn samples_to_wav_uses_the_extensible_header_beyond_two_channels() {
    let wav = samples_to_wav(&vec![1_i16, 2, 3], 8_000, 3).expect("wav");
    assert_eq!(wav.len(), 68 + 6);
    assert_eq!(&wav[4..8], &[66, 0, 0, 0]);
    assert_eq!(&wav[16..24], &[40, 0, 0, 0, 0xfe, 0xff, 3, 0]);
    assert_eq!(&wav[34..44], &[16, 0, 22, 0, 16, 0, 7, 0, 0, 0]);
    assert_eq!(
        &wav[44..60],
        &[0x01, 0x00, 0x00, 0x00, 0x00, 0x00, 0x10, 0x00, 0x80, 0x00, 0x00, 0xaa, 0x00, 0x38, 0x9b, 0x71]
    );
    assert_eq!(&wav[60..74], &[b'd', b'a', b't', b'a', 6, 0, 0, 0, 1, 0, 2, 0, 3, 0]);
}

use earshot::microphone::{clock, decode};
use earshot::{Heard, PipeRead, Recorder, StartError, BLOCK_MS, READ_BYTES, SAMPLE_RATE};
use std::time::Duration;

fn running() -> Recorder {
    let opened: Result<Recorder, StartError<String>> = Recorder::open(Ok(()));
    opened.expect("a capture that runs")
}

fn bytes_of(samples: &[i16]) -> Vec<u8> {
    let mut bytes = Vec::new();
    for sample in samples {
        bytes.extend_from_slice(&sample.to_le_bytes());
    }
    bytes
}

fn hear(recorder: &mut Recorder, samples: &[i16]) {
    let bytes = bytes_of(samples);
    match recorder.heard(PipeRead::Bytes(&bytes)) {
        Heard::Block(block) => assert_eq!(block, samples),
        Heard::Ended(reason) => panic!("ended: {reason:?}"),
    }
}

fn command(source: &str) -> Vec<String> {
    Recorder::start::<String>(source, true).expect("the tool is there")
}

#[test]
fn a_read_is_a_whole_number_of_frames() {
    // An odd read size would split a 16-bit sample across two reads.
    assert_eq!(READ_BYTES % 2, 0);
    assert_eq!(
        READ_BYTES,
        (SAMPLE_RATE as usize * BLOCK_MS as usize / 1000) * 2
    );
    assert_eq!(READ_BYTES, 1280);
}

#[test]
fn the_default_source_has_no_target() {
    let expected = vec![
        "pw-record",
        "--rate",
        "16000",
        "--channels",
        "1",
        "--format",
        "s16",
        "-",
    ];
    assert_eq!(command(""), expected);
    assert_eq!(command(" \t\n\u{3000}"), expected);
    assert_eq!(expected[2], format!("{SAMPLE_RATE}"));
}

#[test]
fn a_named_source_is_the_target_without_its_padding() {
    let expected = vec![
        "pw-record",
        "--rate",
        "16000",
        "--channels",
        "1",
        "--format",
        "s16",
        "--target",
        "alsa_input.usb mic é",
        "-",
    ];
    assert_eq!(command("alsa_input.usb mic é"), expected);
    assert_eq!(command("  alsa_input.usb mic é\u{a0}\n"), expected);
}

#[test]
fn a_missing_tool_is_refused_whatever_the_source() {
    for source in ["", "mic"] {
        let refused = Recorder::start::<String>(source, false);
        assert!(matches!(refused, Err(StartError::ToolMissing)));
    }
}

#[test]
fn a_refusal_says_what_to_install() {
    let error: StartError<String> = StartError::ToolMissing;
    assert_eq!(
        error.message(),
        "pw-record is not installed. It comes with PipeWire, in the pipewire-bin package \
         on Debian and Ubuntu and in pipewire-utils on Fedora."
    );
    assert!(error.source().is_none());
}

#[test]
fn a_failed_spawn_keeps_its_error() {
    let opened = Recorder::open(Err(String::from("no such file")));
    let error = match opened {
        Err(error) => error,
        Ok(_) => panic!("opened"),
    };
    assert!(matches!(&error, StartError::Spawn(text) if text == "no such file"));
    assert_eq!(error.source(), Some(&String::from("no such file")));
    assert_eq!(
        error.message(),
        "The microphone could not be opened: no such file"
    );
}

#[test]
fn bytes_are_little_endian_samples() {
    assert_eq!(decode(&[]), Vec::<i16>::new());
    assert_eq!(decode(&[0x34, 0x12]), vec![0x1234]);
    assert_eq!(
        decode(&[0x00, 0x80, 0xff, 0x7f, 0xff, 0xff]),
        vec![-32768, 32767, -1]
    );
    // Half a sample is none.
    assert_eq!(decode(&[7]), Vec::<i16>::new());
    assert_eq!(decode(&[1, 0, 7]), vec![1]);
}

#[test]
fn every_sample_survives_the_pipe() {
    let all: Vec<i16> = (i16::MIN..=i16::MAX).collect();
    assert_eq!(decode(&bytes_of(&all)), all);
}

#[test]
fn where_a_read_ends_makes_no_difference() {
    let samples = vec![1, -2, 300, -400, 5, -6];
    let bytes = bytes_of(&samples);
    for cut in [2, 4, 6, 8, 10] {
        let mut recorder = running();
        assert!(matches!(
            recorder.heard(PipeRead::Bytes(&bytes[..cut])),
            Heard::Block(_)
        ));
        assert!(matches!(
            recorder.heard(PipeRead::Bytes(&bytes[cut..])),
            Heard::Block(_)
        ));
        assert_eq!(recorder.take(), samples);
    }
}

#[test]
fn taking_keeps_recording_and_loses_nothing() {
    let mut recorder = running();
    hear(&mut recorder, &[1, 2, 3]);
    hear(&mut recorder, &[4]);
    assert_eq!(recorder.take(), vec![1, 2, 3, 4]);
    assert!(!recorder.is_stopped());
    assert_eq!(recorder.take(), Vec::<i16>::new());
    hear(&mut recorder, &[5, 6]);
    assert_eq!(recorder.take(), vec![5, 6]);
}

#[test]
fn keeping_the_last_drops_what_came_before() {
    let mut recorder = running();
    hear(&mut recorder, &[1, 2, 3, 4, 5]);
    recorder.keep_last(9);
    recorder.keep_last(5);
    recorder.keep_last(3);
    hear(&mut recorder, &[6]);
    assert_eq!(recorder.take(), vec![3, 4, 5, 6]);
    hear(&mut recorder, &[7]);
    recorder.keep_last(0);
    assert_eq!(recorder.take(), Vec::<i16>::new());
}

#[test]
fn a_duration_is_the_length_of_the_audio_held() {
    let mut recorder = running();
    assert_eq!(recorder.duration(), Duration::ZERO);
    hear(&mut recorder, &vec![0; 40_001]);
    assert_eq!(recorder.duration(), Duration::new(2, 500_062_500));
    assert_eq!(
        recorder.duration(),
        Duration::from_secs_f64(40_001f64 / SAMPLE_RATE as f64)
    );
    recorder.keep_last(640);
    assert_eq!(recorder.duration(), Duration::from_millis(BLOCK_MS as u64));
    recorder.take();
    assert_eq!(recorder.duration(), Duration::ZERO);
}

#[test]
fn the_clock_agrees_with_floating_point() {
    for count in (0usize..5_000_000).step_by(997) {
        let (secs, nanos) = clock(count);
        assert_eq!(
            Duration::new(secs, nanos),
            Duration::from_secs_f64(count as f64 / SAMPLE_RATE as f64)
        );
    }
    assert_eq!(clock(15_999), (0, 999_937_500));
    assert_eq!(clock(16_000), (1, 0));
}

#[test]
fn a_pipe_that_closes_is_reported() {
    let mut recorder = running();
    hear(&mut recorder, &[1]);
    match recorder.heard(PipeRead::Bytes(&[])) {
        Heard::Ended(Some(reason)) => assert_eq!(
            reason,
            "The microphone closed on its own. Check that the input device still exists."
        ),
        other => panic!("{other:?}"),
    }
    assert_eq!(recorder.take(), vec![1]);
}

#[test]
fn a_read_that_fails_is_reported_with_its_error() {
    let mut recorder = running();
    match recorder.heard(PipeRead::Failed(String::from("broken pipe"))) {
        Heard::Ended(Some(reason)) => assert_eq!(reason, "The microphone stopped: broken pipe"),
        other => panic!("{other:?}"),
    }
}

#[test]
fn a_deliberate_finish_is_not_reported() {
    let mut recorder = running();
    hear(&mut recorder, &[1, 2]);
    assert_eq!(recorder.finish(), vec![1, 2]);
    assert!(recorder.is_stopped());
    assert!(matches!(
        recorder.heard(PipeRead::Bytes(&[])),
        Heard::Ended(None)
    ));
    assert!(matches!(
        recorder.heard(PipeRead::Bytes(&[1, 0])),
        Heard::Ended(None)
    ));
    assert!(matches!(
        recorder.heard(PipeRead::Failed(String::from("killed"))),
        Heard::Ended(None)
    ));
    assert_eq!(recorder.take(), Vec::<i16>::new());
}

#[test]
fn stopping_keeps_what_was_heard() {
    let mut recorder = running();
    hear(&mut recorder, &[8]);
    recorder.stop();
    assert!(recorder.is_stopped());
    assert_eq!(recorder.take(), vec![8]);
}

#[test]
fn an_end_is_told_once() {
    let mut recorder = running();
    hear(&mut recorder, &[1]);
    assert!(matches!(
        recorder.heard(PipeRead::Bytes(&[])),
        Heard::Ended(Some(_))
    ));
    assert!(matches!(
        recorder.heard(PipeRead::Failed(String::from("again"))),
        Heard::Ended(None)
    ));
    assert!(matches!(
        recorder.heard(PipeRead::Bytes(&[2, 0])),
        Heard::Ended(None)
    ));
    assert_eq!(recorder.take(), vec![1]);
}

#[test]
fn what_is_held_is_what_was_handed_out_even_of_odd_reads() {
    let reads: Vec<Vec<u8>> = vec![vec![1, 0, 9], vec![7], vec![2, 0, 3, 0], vec![4, 0, 5]];
    let mut recorder = running();
    let mut joined = Vec::new();
    for read in &reads {
        match recorder.heard(PipeRead::Bytes(read)) {
            Heard::Block(block) => joined.extend(block),
            Heard::Ended(reason) => panic!("ended: {reason:?}"),
        }
    }
    assert_eq!(joined, vec![1, 2, 3, 4]);
    assert_eq!(recorder.take(), joined);
}

use earshot::{Answer, Job, Model, Next, Speech, SpeechError, STREAM_CHUNK};

#[test]
fn the_chunk_is_the_size_the_encoder_was_built_for() {
    assert_eq!(STREAM_CHUNK, 560 * 16_000 / 1000);
}

#[test]
fn a_missing_model_is_named_in_the_error() {
    // Which of the two is missing decides what a caller offers to fetch.
    let error = SpeechError::NotInstalled(Model::Live);
    assert!(matches!(error, SpeechError::NotInstalled(Model::Live)));
}

#[test]
fn every_failure_can_be_read_out() {
    assert_eq!(
        SpeechError::NotInstalled(Model::Accurate).message(),
        "No speech model is installed."
    );
    assert_eq!(
        SpeechError::NotInstalled(Model::Live).message(),
        "No speech model is installed."
    );
    assert_eq!(
        SpeechError::Busy.message(),
        "Still working out what was said a moment ago."
    );
    assert_eq!(
        SpeechError::Load(String::from("no vocab")).message(),
        "The speech model could not be loaded: no vocab"
    );
    assert_eq!(
        SpeechError::Transcribe(String::from("bad shape")).message(),
        "What you said could not be transcribed: bad shape"
    );
}

fn answer<R>(reply: R) -> Answer<R> {
    Answer {
        reply,
        result: Ok(String::from("words")),
    }
}

#[test]
fn a_second_pass_is_answered_and_not_queued() {
    let mut speech: Speech<Vec<f32>, &str> = Speech::new();
    assert!(!speech.is_busy());
    assert!(speech.transcribe(vec![0.5], "first").is_none());
    assert!(speech.is_busy());
    match speech.transcribe(vec![0.25], "second") {
        Some(Answer { reply, result: Err(SpeechError::Busy) }) => assert_eq!(reply, "second"),
        other => panic!("{other:?}"),
    }
    match speech.next_job() {
        Next::Job(Job::Whole { audio, reply }) => {
            assert_eq!(audio, vec![0.5]);
            assert_eq!(reply, "first");
        }
        other => panic!("{other:?}"),
    }
    assert!(speech.is_busy(), "the pass is still running");
    let sent = speech.answered(answer("first"));
    assert_eq!(sent.reply, "first");
    assert_eq!(sent.result.expect("text"), "words");
    assert!(!speech.is_busy());
    assert!(matches!(speech.next_job(), Next::Wait));
    assert!(speech.transcribe(vec![0.25], "third").is_none());
}

#[test]
fn whoever_is_answered_can_ask_again_however_bad_the_answer() {
    let results = vec![
        Ok(String::from("words")),
        Err(SpeechError::NotInstalled(Model::Accurate)),
        Err(SpeechError::Load(String::from("half a file"))),
        Err(SpeechError::Transcribe(String::from("noise"))),
    ];
    let mut speech: Speech<u8, u8> = Speech::new();
    for result in results {
        assert!(speech.transcribe(1, 1).is_none());
        assert!(matches!(speech.next_job(), Next::Job(Job::Whole { .. })));
        speech.answered(Answer { reply: 1, result });
        speech.feed(2, 2);
        speech.reset();
        assert!(!speech.is_busy());
        assert!(matches!(speech.next_job(), Next::Job(Job::Chunk { .. })));
        speech.answered(answer(2));
        assert!(matches!(speech.next_job(), Next::Job(Job::Reset)));
    }
}

#[test]
fn jobs_are_given_out_one_at_a_time_and_in_order() {
    let mut speech: Speech<u8, u8> = Speech::new();
    speech.feed(1, 10);
    assert!(speech.transcribe(2, 20).is_none());
    speech.reset();
    speech.feed(3, 30);
    speech.stop();
    assert!(matches!(speech.next_job(), Next::Job(Job::Chunk { audio: 1, reply: 10 })));
    assert!(matches!(speech.next_job(), Next::Wait), "one is being worked on");
    speech.answered(answer(10));
    assert!(speech.is_busy(), "a chunk's answer is not the pass's");
    assert!(matches!(speech.next_job(), Next::Job(Job::Whole { audio: 2, reply: 20 })));
    speech.answered(answer(20));
    assert!(matches!(speech.next_job(), Next::Job(Job::Reset)));
    assert!(matches!(speech.next_job(), Next::Job(Job::Chunk { audio: 3, reply: 30 })));
    speech.answered(answer(30));
    assert!(matches!(speech.next_job(), Next::Job(Job::Stop)));
    assert!(matches!(speech.next_job(), Next::Wait));
}

#[test]
fn chunks_are_taken_while_a_pass_runs() {
    let mut speech: Speech<u8, u8> = Speech::new();
    assert!(speech.transcribe(1, 1).is_none());
    speech.feed(2, 2);
    speech.feed(3, 3);
    assert!(matches!(speech.next_job(), Next::Job(Job::Whole { .. })));
    speech.answered(answer(1));
    assert!(matches!(speech.next_job(), Next::Job(Job::Chunk { audio: 2, .. })));
    speech.answered(answer(2));
    assert!(matches!(speech.next_job(), Next::Job(Job::Chunk { audio: 3, .. })));
}

#[test]
fn a_closed_desk_gives_out_what_still_waits() {
    let mut speech: Speech<u8, u8> = Speech::new();
    speech.feed(1, 1);
    speech.feed(2, 2);
    speech.close();
    assert!(matches!(speech.next_job(), Next::Job(Job::Chunk { audio: 1, .. })));
    assert!(matches!(speech.next_job(), Next::Wait), "one is being worked on");
    speech.answered(answer(1));
    assert!(matches!(speech.next_job(), Next::Job(Job::Chunk { audio: 2, .. })));
    speech.answered(answer(2));
    assert!(matches!(speech.next_job(), Next::Closed));
    assert!(matches!(speech.next_job(), Next::Closed));
}

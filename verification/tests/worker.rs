use earshot::{transcribed, Answer, Job, Manner, Model, Next, Request, SpeechError, Stamps, Step, Worker};

/// What stands around the thread: where models are, and what they do.
struct Around {
    installed: bool,
    loads: bool,
    hears: bool,
    /// How often a model was loaded.
    loaded: usize,
}

fn around() -> Around {
    Around {
        installed: true,
        loads: true,
        hears: true,
        loaded: 0,
    }
}

/// Drive one job to its last step. An engine counts how often it was run.
fn drive(worker: &mut Worker<usize>, around: &mut Around, job: Job<&str, u8>) -> Step<&'static str, u8, String> {
    let job = match job {
        Job::Whole { reply, .. } => Job::Whole { audio: "words", reply },
        Job::Chunk { reply, .. } => Job::Chunk { audio: "words", reply },
        Job::Reset => Job::Reset,
        Job::Stop => Job::Stop,
    };
    let mut step: Step<&'static str, u8, String> = worker.accept(Next::Job(job));
    loop {
        step = match step {
            Step::Resolve(request) => {
                let found = if around.installed {
                    Some(request.model.folder().to_string())
                } else {
                    None
                };
                worker.resolved(request, found)
            }
            Step::Load(request, dir) => {
                assert_eq!(dir, request.model.folder());
                around.loaded += 1;
                let engine = if around.loads {
                    Ok(0)
                } else {
                    Err(String::from("half a file"))
                };
                worker.loaded(request, engine)
            }
            Step::Run(Request { model, audio, reply }, manner) => {
                assert_eq!(manner, Manner::of(model));
                let engine = worker.engine(model).expect("just loaded");
                *engine += 1;
                let ran = if around.hears {
                    Ok(format!("{audio} {engine}"))
                } else {
                    Err(String::from("noise"))
                };
                Step::Send(transcribed(reply, ran))
            }
            last => return last,
        };
    }
}

fn whole(reply: u8) -> Job<&'static str, u8> {
    Job::Whole { audio: "", reply }
}

fn chunk(reply: u8) -> Job<&'static str, u8> {
    Job::Chunk { audio: "", reply }
}

fn answer(step: Step<&'static str, u8, String>) -> (u8, Result<String, SpeechError>) {
    match step {
        Step::Send(Answer { reply, result }) => (reply, result),
        other => panic!("{other:?}"),
    }
}

#[test]
fn a_model_is_loaded_on_first_use_and_kept() {
    let mut worker = Worker::new();
    let mut around = around();
    let (reply, result) = answer(drive(&mut worker, &mut around, whole(1)));
    assert_eq!(reply, 1);
    assert_eq!(result.expect("text"), "words 1");
    let (reply, result) = answer(drive(&mut worker, &mut around, whole(2)));
    assert_eq!(reply, 2);
    assert_eq!(result.expect("text"), "words 2");
    assert_eq!(around.loaded, 1);
    let (_, result) = answer(drive(&mut worker, &mut around, chunk(3)));
    assert_eq!(result.expect("text"), "words 1");
    assert_eq!(around.loaded, 2);
}

#[test]
fn a_reset_forgets_the_live_model_only() {
    let mut worker = Worker::new();
    let mut around = around();
    drive(&mut worker, &mut around, whole(1));
    drive(&mut worker, &mut around, chunk(2));
    drive(&mut worker, &mut around, chunk(3));
    assert!(matches!(
        drive(&mut worker, &mut around, Job::Reset),
        Step::Wait
    ));
    let (_, result) = answer(drive(&mut worker, &mut around, chunk(4)));
    assert_eq!(result.expect("text"), "words 1");
    let (_, result) = answer(drive(&mut worker, &mut around, whole(5)));
    assert_eq!(result.expect("text"), "words 2");
    assert_eq!(around.loaded, 3);
}

#[test]
fn a_missing_model_is_looked_for_again() {
    let mut worker = Worker::new();
    let mut around = around();
    around.installed = false;
    for (job, model) in [(whole(1), Model::Accurate), (chunk(1), Model::Live)] {
        let (reply, result) = answer(drive(&mut worker, &mut around, job));
        assert_eq!(reply, 1);
        assert!(matches!(result, Err(SpeechError::NotInstalled(named)) if named == model));
    }
    assert_eq!(around.loaded, 0);
    around.installed = true;
    let (_, result) = answer(drive(&mut worker, &mut around, chunk(2)));
    assert_eq!(result.expect("text"), "words 1");
    // One that is loaded is not used once it is gone.
    around.installed = false;
    let (_, result) = answer(drive(&mut worker, &mut around, chunk(3)));
    assert!(matches!(
        result,
        Err(SpeechError::NotInstalled(Model::Live))
    ));
    around.installed = true;
    let (_, result) = answer(drive(&mut worker, &mut around, chunk(4)));
    assert_eq!(result.expect("text"), "words 2");
}

#[test]
fn a_failed_load_is_answered_and_tried_again() {
    let mut worker = Worker::new();
    let mut around = around();
    around.loads = false;
    let (reply, result) = answer(drive(&mut worker, &mut around, whole(7)));
    assert_eq!(reply, 7);
    assert!(matches!(result, Err(SpeechError::Load(text)) if text == "half a file"));
    around.loads = true;
    let (_, result) = answer(drive(&mut worker, &mut around, whole(8)));
    assert_eq!(result.expect("text"), "words 1");
    assert_eq!(around.loaded, 2);
}

#[test]
fn a_failed_run_is_answered_and_keeps_the_model() {
    let mut worker = Worker::new();
    let mut around = around();
    around.hears = false;
    let (reply, result) = answer(drive(&mut worker, &mut around, chunk(9)));
    assert_eq!(reply, 9);
    assert!(matches!(result, Err(SpeechError::Transcribe(text)) if text == "noise"));
    around.hears = true;
    let (_, result) = answer(drive(&mut worker, &mut around, chunk(10)));
    assert_eq!(result.expect("text"), "words 2");
    assert_eq!(around.loaded, 1);
}

#[test]
fn a_stop_ends_the_thread() {
    let mut worker = Worker::new();
    let mut around = around();
    assert!(matches!(
        drive(&mut worker, &mut around, Job::Stop),
        Step::Quit
    ));
    assert!(worker.engine(Model::Accurate).is_none());
    assert!(worker.engine(Model::Live).is_none());
}

#[test]
fn a_closed_queue_ends_the_thread_and_an_empty_one_does_not() {
    let mut worker: Worker<usize> = Worker::new();
    let mut around = around();
    drive(&mut worker, &mut around, chunk(1));
    let step: Step<&str, u8, String> = worker.accept(Next::Wait);
    assert!(matches!(step, Step::Wait));
    let step: Step<&str, u8, String> = worker.accept(Next::Closed);
    assert!(matches!(step, Step::Quit));
    assert_eq!(worker.engine(Model::Live), Some(&mut 1));
}

#[test]
fn each_model_is_run_in_a_manner_of_its_own() {
    assert_eq!(
        Manner::of(Model::Accurate),
        Manner::Utterance {
            sample_rate: 16_000,
            channels: 1,
            stamps: Stamps::Sentences
        }
    );
    assert_eq!(Manner::of(Model::Live), Manner::Chunk);
}

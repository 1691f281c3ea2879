//! The thread that the speech models live on.
//!
//! The thread alternates between deciding and doing. The deciding is here: each
//! method takes what the last piece of work came to and says, as a [`Step`], what
//! to do next. Finding a model's directory, loading a model and running it are
//! the doing, and are left to whoever drives the thread.
//!
//! Each model is loaded the first time it is needed and kept, because loading
//! costs most of a second, which on a short utterance would be the longest part
//! of the whole thing.
//!
//! `M` is a loaded model and `D` is where one is found.

use crate::microphone::SAMPLE_RATE;
use crate::models::Model;
use crate::speech::{Act, Answer, Desk, Job, Next, SpeechError};
use vstd::prelude::*;

verus! {

/// Audio to be transcribed, by which model, and where the answer goes.
#[derive(Debug)]
pub struct Request<A, R> {
    pub model: Model,
    pub audio: A,
    pub reply: R,
}

/// What a transcription is divided into, each part with its time.
#[derive(Debug, Clone, Copy, PartialEq, Eq, Structural)]
pub enum Stamps {
    Sentences,
}

/// How a model is run on audio.
#[derive(Debug, Clone, Copy, PartialEq, Eq, Structural)]
pub enum Manner {
    /// On a whole utterance: so many samples a second, in so many channels, with
    /// the times of such parts.
    Utterance { sample_rate: u32, channels: u16, stamps: Stamps },
    /// On the next chunk of a stream, which takes nothing but the audio.
    Chunk,
}

/// How `model` is run: the accurate one on mono at the rate of the microphone,
/// with the times of sentences, and the live one chunk by chunk.
pub open spec fn manner_of(model: Model) -> Manner {
    match model {
        Model::Accurate => Manner::Utterance {
            sample_rate: SAMPLE_RATE,
            channels: 1,
            stamps: Stamps::Sentences,
        },
        Model::Live => Manner::Chunk,
    }
}

impl Manner {
    /// How `model` is run.
    pub fn of(model: Model) -> (r: Manner)
        ensures
            r == manner_of(model),
    {
        match model {
            Model::Accurate => Manner::Utterance {
                sample_rate: SAMPLE_RATE,
                channels: 1,
                stamps: Stamps::Sentences,
            },
            Model::Live => Manner::Chunk,
        }
    }
}

/// What the thread does next.
#[derive(Debug)]
pub enum Step<A, R, D> {
    /// Ask for work.
    Wait,
    /// Return.
    Quit,
    /// Ask where the model is.
    Resolve(Request<A, R>),
    /// Load the model from there.
    Load(Request<A, R>, D),
    /// Run the model, which is loaded, on the audio, in this manner.
    Run(Request<A, R>, Manner),
    /// Send the answer.
    Send(Answer<R>),
}

/// The models that are loaded.
#[verifier::ext_equal]
pub struct Shelf<M> {
    pub accurate: Option<M>,
    pub live: Option<M>,
}

impl<M> Shelf<M> {
    /// Nothing is loaded.
    pub open spec fn empty() -> Shelf<M> {
        Shelf { accurate: None, live: None }
    }

    /// What is loaded of `model`.
    pub open spec fn slot(self, model: Model) -> Option<M> {
        match model {
            Model::Accurate => self.accurate,
            Model::Live => self.live,
        }
    }

    /// The shelf with `loaded` in the place of `model`.
    pub open spec fn with(self, model: Model, loaded: Option<M>) -> Shelf<M> {
        match model {
            Model::Accurate => Shelf { accurate: loaded, ..self },
            Model::Live => Shelf { live: loaded, ..self },
        }
    }

    /// The shelf once `job` was taken up.
    pub open spec fn after_job<A, R>(self, job: Job<A, R>) -> Shelf<M> {
        if job is Reset {
            self.with(Model::Live, None)
        } else {
            self
        }
    }

    /// The shelf once the thread got `next`.
    pub open spec fn after_next<A, R>(self, next: Next<A, R>) -> Shelf<M> {
        match next {
            Next::Job(job) => self.after_job(job),
            Next::Wait => self,
            Next::Closed => self,
        }
    }

    /// The shelf once an attempt to load `model` was made.
    pub open spec fn after_load(self, model: Model, loaded: Result<M, String>) -> Shelf<M> {
        match loaded {
            Ok(engine) => self.with(model, Some(engine)),
            Err(_) => self,
        }
    }
}

/// What to do about `job`.
pub open spec fn step_for_job<A, R, D>(job: Job<A, R>) -> Step<A, R, D> {
    match job {
        Job::Stop => Step::Quit,
        Job::Reset => Step::Wait,
        Job::Whole { audio, reply } => Step::Resolve(
            Request { model: Model::Accurate, audio, reply },
        ),
        Job::Chunk { audio, reply } => Step::Resolve(Request { model: Model::Live, audio, reply }),
    }
}

/// What to do about what the thread got when it asked for work.
pub open spec fn step_for_next<A, R, D>(next: Next<A, R>) -> Step<A, R, D> {
    match next {
        Next::Job(job) => step_for_job(job),
        Next::Wait => Step::Wait,
        Next::Closed => Step::Quit,
    }
}

/// What to do once it is known where the model of `request` is.
pub open spec fn step_once_resolved<A, R, D, M>(
    shelf: Shelf<M>,
    request: Request<A, R>,
    found: Option<D>,
) -> Step<A, R, D> {
    match found {
        None => Step::Send(
            Answer {
                reply: request.reply,
                result: Err(SpeechError::NotInstalled(request.model)),
            },
        ),
        Some(dir) => if shelf.slot(request.model) is Some {
            Step::Run(request, manner_of(request.model))
        } else {
            Step::Load(request, dir)
        },
    }
}

/// What to do once loading the model of `request` was attempted.
pub open spec fn step_once_loaded<A, R, D, M>(
    request: Request<A, R>,
    loaded: Result<M, String>,
) -> Step<A, R, D> {
    match loaded {
        Ok(_) => Step::Run(request, manner_of(request.model)),
        Err(error) => Step::Send(
            Answer { reply: request.reply, result: Err(SpeechError::Load(error)) },
        ),
    }
}

/// What is answered once the model has run.
pub open spec fn answer_once_run<R>(reply: R, ran: Result<String, String>) -> Answer<R> {
    Answer {
        reply,
        result: match ran {
            Ok(text) => Ok(text),
            Err(error) => Err(SpeechError::Transcribe(error)),
        },
    }
}

/// What the thread keeps from one job to the next.
#[derive(Debug)]
pub struct Worker<M> {
    accurate: Option<M>,
    live: Option<M>,
}

impl<M> View for Worker<M> {
    type V = Shelf<M>;

    closed spec fn view(&self) -> Shelf<M> {
        Shelf { accurate: self.accurate, live: self.live }
    }
}

impl<M> Worker<M> {
    /// A thread that has loaded nothing yet.
    pub fn new() -> (r: Self)
        ensures
            r@ == Shelf::<M>::empty(),
    {
        Worker { accurate: None, live: None }
    }

    /// Take up a job, or the news that there is none.
    pub fn accept<A, R, D>(&mut self, next: Next<A, R>) -> (r: Step<A, R, D>)
        ensures
            final(self)@ == old(self)@.after_next(next),
            r == step_for_next::<A, R, D>(next),
    {
        match next {
            Next::Wait => Step::Wait,
            Next::Closed => Step::Quit,
            Next::Job(Job::Stop) => Step::Quit,
            Next::Job(Job::Reset) => {
                // Dropping the model is the reliable way to clear the encoder
                // cache; it is reloaded on the next chunk.
                self.live = None;
                Step::Wait
            },
            Next::Job(Job::Whole { audio, reply }) => Step::Resolve(
                Request { model: Model::Accurate, audio, reply },
            ),
            Next::Job(Job::Chunk { audio, reply }) => Step::Resolve(
                Request { model: Model::Live, audio, reply },
            ),
        }
    }

    /// Go on once it is known where the model is, if it is anywhere.
    pub fn resolved<A, R, D>(&self, request: Request<A, R>, found: Option<D>) -> (r: Step<A, R, D>)
        ensures
            r == step_once_resolved(self@, request, found),
    {
        match found {
            None => Step::Send(
                Answer {
                    reply: request.reply,
                    result: Err(SpeechError::NotInstalled(request.model)),
                },
            ),
            Some(dir) => {
                let loaded: bool = match request.model {
                    Model::Accurate => self.accurate.is_some(),
                    Model::Live => self.live.is_some(),
                };
                if loaded {
                    let manner = Manner::of(request.model);
                    Step::Run(request, manner)
                } else {
                    Step::Load(request, dir)
                }
            },
        }
    }

    /// Go on once loading the model was attempted, and keep it if it loaded.
    pub fn loaded<A, R, D>(&mut self, request: Request<A, R>, loaded: Result<M, String>) -> (r: Step<
        A,
        R,
        D,
    >)
        ensures
            final(self)@ == old(self)@.after_load(request.model, loaded),
            r == step_once_loaded::<A, R, D, M>(request, loaded),
    {
        match loaded {
            Ok(engine) => {
                match request.model {
                    Model::Accurate => {
                        self.accurate = Some(engine);
                    },
                    Model::Live => {
                        self.live = Some(engine);
                    },
                }
                let manner = Manner::of(request.model);
                Step::Run(request, manner)
            },
            Err(error) => Step::Send(
                Answer { reply: request.reply, result: Err(SpeechError::Load(error)) },
            ),
        }
    }

    /// The loaded model, to be run. There is one at every [`Step::Run`].
    pub fn engine(&mut self, model: Model) -> (r: Option<&mut M>)
        ensures
            match r {
                Some(engine) => {
                    &&& old(self)@.slot(model) == Some(*engine)
                    &&& final(self)@ == old(self)@.with(model, Some(*final(engine)))
                },
                None => old(self)@.slot(model) is None && final(self)@ == old(self)@,
            },
    {
        match model {
            Model::Accurate => match &mut self.accurate {
                Some(engine) => Some(engine),
                None => None,
            },
            Model::Live => match &mut self.live {
                Some(engine) => Some(engine),
                None => None,
            },
        }
    }
}

/// The answer, once the model has run.
pub fn transcribed<R>(reply: R, ran: Result<String, String>) -> (r: Answer<R>)
    ensures
        r == answer_once_run(reply, ran),
{
    match ran {
        Ok(text) => Answer { reply, result: Ok(text) },
        Err(error) => Answer { reply, result: Err(SpeechError::Transcribe(error)) },
    }
}

/// All that the outside may have to say while one job is being worked on.
pub struct Outside<D, M> {
    /// Where the model is.
    pub found: Option<D>,
    /// What loading it from there comes to.
    pub loaded: Result<M, String>,
    /// What running it comes to.
    pub ran: Result<String, String>,
    /// The model as running it leaves it.
    pub engine: M,
}

/// The shelf and the next step, once `step` was carried out.
pub open spec fn advance<A, R, D, M>(
    shelf: Shelf<M>,
    step: Step<A, R, D>,
    outside: Outside<D, M>,
) -> (Shelf<M>, Step<A, R, D>) {
    match step {
        Step::Resolve(request) => (shelf, step_once_resolved(shelf, request, outside.found)),
        Step::Load(request, _) => (
            shelf.after_load(request.model, outside.loaded),
            step_once_loaded(request, outside.loaded),
        ),
        Step::Run(request, _) => (
            shelf.with(request.model, Some(outside.engine)),
            Step::Send(answer_once_run(request.reply, outside.ran)),
        ),
        _ => (shelf, step),
    }
}

/// The shelf and the last step, once `job` was worked on to the end.
pub open spec fn served<A, R, D, M>(
    shelf: Shelf<M>,
    job: Job<A, R>,
    outside: Outside<D, M>,
) -> (Shelf<M>, Step<A, R, D>) {
    let next = Next::Job(job);
    let (shelf1, step1) = advance(
        shelf.after_next(next),
        step_for_next::<A, R, D>(next),
        outside,
    );
    let (shelf2, step2) = advance(shelf1, step1, outside);
    advance(shelf2, step2, outside)
}

/// What a request for `model` is answered.
pub open spec fn verdict<D, M>(shelf: Shelf<M>, model: Model, outside: Outside<D, M>) -> Result<
    String,
    SpeechError,
> {
    if outside.found is None {
        Err(SpeechError::NotInstalled(model))
    } else if shelf.slot(model) is None && outside.loaded is Err {
        Err(SpeechError::Load(outside.loaded->Err_0))
    } else {
        match outside.ran {
            Ok(text) => Ok(text),
            Err(error) => Err(SpeechError::Transcribe(error)),
        }
    }
}

/// Whatever the outside says, working on a request ends in one answer, to where
/// that request wants it, and working on anything else ends without one.
pub proof fn law_every_request_is_answered<A, R, D, M>(
    shelf: Shelf<M>,
    job: Job<A, R>,
    outside: Outside<D, M>,
)
    ensures
        match job.wants() {
            Some(model) => served(shelf, job, outside).1 == Step::<A, R, D>::Send(
                Answer { reply: job.reply_to()->0, result: verdict(shelf, model, outside) },
            ),
            None => served(shelf, job, outside).1 == (if job is Stop {
                Step::<A, R, D>::Quit
            } else {
                Step::Wait
            }),
        },
{
}

/// Whenever a model is to be run, it is loaded, and it is run on the audio of the
/// request in the one manner that is its own.
pub proof fn law_a_run_has_its_model<A, R, D, M>(
    shelf: Shelf<M>,
    step: Step<A, R, D>,
    outside: Outside<D, M>,
)
    requires
        step is Resolve || step is Load,
    ensures
        ({
            let (after, next) = advance(shelf, step, outside);
            next matches Step::Run(request, manner) ==> {
                &&& after.slot(request.model) is Some
                &&& manner == manner_of(request.model)
                &&& match step {
                    Step::Resolve(asked) => request == asked,
                    Step::Load(asked, _) => request == asked,
                    _ => false,
                }
            }
        }),
{
}

/// What is run, and in what manner, where `step` is carried out.
pub open spec fn run_at<A, R, D>(step: Step<A, R, D>) -> Seq<(Request<A, R>, Manner)> {
    match step {
        Step::Run(request, manner) => seq![(request, manner)],
        _ => Seq::empty(),
    }
}

/// All that is run while `job` is worked on to the end.
pub open spec fn runs_of<A, R, D, M>(
    shelf: Shelf<M>,
    job: Job<A, R>,
    outside: Outside<D, M>,
) -> Seq<(Request<A, R>, Manner)> {
    let next = Next::Job(job);
    let step0 = step_for_next::<A, R, D>(next);
    let (shelf1, step1) = advance(shelf.after_next(next), step0, outside);
    let (_, step2) = advance(shelf1, step1, outside);
    run_at(step0) + run_at(step1) + run_at(step2)
}

/// A request whose model is there, and loaded or loads, has that model run exactly
/// once, on its own audio and in the model's own manner, and the model stays
/// loaded whether or not the run succeeds. Any other has nothing run.
pub proof fn law_a_request_is_run_once<A, R, D, M>(
    shelf: Shelf<M>,
    job: Job<A, R>,
    outside: Outside<D, M>,
)
    ensures
        match job {
            Job::Whole { audio, reply } => {
                let model = Model::Accurate;
                if outside.found is Some && (shelf.slot(model) is Some || outside.loaded is Ok) {
                    &&& runs_of(shelf, job, outside) == seq![
                        (Request { model, audio, reply }, manner_of(model)),
                    ]
                    &&& served(shelf, job, outside).0.slot(model) is Some
                } else {
                    runs_of(shelf, job, outside).len() == 0
                }
            },
            Job::Chunk { audio, reply } => {
                let model = Model::Live;
                if outside.found is Some && (shelf.slot(model) is Some || outside.loaded is Ok) {
                    &&& runs_of(shelf, job, outside) == seq![
                        (Request { model, audio, reply }, manner_of(model)),
                    ]
                    &&& served(shelf, job, outside).0.slot(model) is Some
                } else {
                    runs_of(shelf, job, outside).len() == 0
                }
            },
            Job::Reset => runs_of(shelf, job, outside).len() == 0,
            Job::Stop => runs_of(shelf, job, outside).len() == 0,
        },
{
    let all = runs_of(shelf, job, outside);
    if all.len() == 1 {
        assert(all =~= seq![all[0]]);
    }
}

/// A model that is loaded is never loaded again: it is kept whatever is worked
/// on, but for the live one, which a reset lets go of.
pub proof fn law_a_loaded_model_is_kept<A, R, D, M>(
    shelf: Shelf<M>,
    job: Job<A, R>,
    outside: Outside<D, M>,
    model: Model,
)
    requires
        shelf.slot(model) is Some,
        !(job is Reset && model == Model::Live),
    ensures
        served(shelf, job, outside).0.slot(model) is Some,
        forall|request: Request<A, R>, found: Option<D>|
            request.model == model ==> !(#[trigger] step_once_resolved(
                shelf,
                request,
                found,
            ) is Load),
{
}

/// A reset lets go of the live model, whose next chunk loads it anew, and of
/// nothing else.
pub proof fn law_reset_forgets_the_live_model_only<A, R, D, M>(
    shelf: Shelf<M>,
    request: Request<A, R>,
    dir: D,
)
    requires
        request.model == Model::Live,
    ensures
        shelf.after_job(Job::<A, R>::Reset) == (Shelf { live: None, ..shelf }),
        step_once_resolved(shelf.after_job(Job::<A, R>::Reset), request, Some(dir))
            == Step::<A, R, D>::Load(request, dir),
{
}

/// A model that was not there or did not load is looked for and loaded again at
/// the next request, as if nobody had asked before: one that is downloaded in the
/// meantime is picked up.
pub proof fn law_a_late_download_is_picked_up<A, R, D, M>(
    shelf: Shelf<M>,
    early: Job<A, R>,
    before: Outside<D, M>,
    late: Job<A, R>,
    after: Outside<D, M>,
)
    requires
        early.wants() is Some,
        before.found is None || (shelf.slot(early.wants()->0) is None && before.loaded is Err),
    ensures
        served(shelf, early, before).0 == shelf,
        served(served(shelf, early, before).0, late, after) == served(shelf, late, after),
{
}

/// Work for one model leaves the other as it was.
pub proof fn law_models_do_not_disturb_each_other<A, R, D, M>(
    shelf: Shelf<M>,
    job: Job<A, R>,
    outside: Outside<D, M>,
    other: Model,
)
    requires
        job.wants() is Some,
        job.wants() != Some(other),
    ensures
        served(shelf, job, outside).0.slot(other) == shelf.slot(other),
{
}

/// The answers sent while `jobs` are worked on one after the other, up to a job
/// that stops the thread.
pub open spec fn answers<A, R, D, M>(
    shelf: Shelf<M>,
    jobs: Seq<Job<A, R>>,
    outsides: Seq<Outside<D, M>>,
) -> Seq<Answer<R>>
    decreases jobs.len(),
{
    if jobs.len() == 0 || jobs[0] is Stop {
        Seq::empty()
    } else {
        let (after, last) = served(shelf, jobs[0], outsides[0]);
        (match last {
            Step::Send(answer) => seq![answer],
            _ => Seq::empty(),
        }) + answers(after, jobs.drop_first(), outsides.drop_first())
    }
}

/// Where answers are due to, in order, of all that comes before a stop.
pub open spec fn replies_due<A, R>(jobs: Seq<Job<A, R>>) -> Seq<R>
    decreases jobs.len(),
{
    if jobs.len() == 0 || jobs[0] is Stop {
        Seq::empty()
    } else {
        (match jobs[0].reply_to() {
            Some(reply) => seq![reply],
            None => Seq::empty(),
        }) + replies_due(jobs.drop_first())
    }
}

/// Where answers went to, in order.
pub open spec fn replies_sent<R>(answers: Seq<Answer<R>>) -> Seq<R> {
    answers.map_values(|answer: Answer<R>| answer.reply)
}

/// The thread answers every request it is given before a stop, each once and in
/// the order in which it was given them, whatever the outside says.
pub proof fn law_answers_come_in_order<A, R, D, M>(
    shelf: Shelf<M>,
    jobs: Seq<Job<A, R>>,
    outsides: Seq<Outside<D, M>>,
)
    requires
        outsides.len() == jobs.len(),
    ensures
        replies_sent(answers(shelf, jobs, outsides)) == replies_due(jobs),
    decreases jobs.len(),
{
    if jobs.len() == 0 || jobs[0] is Stop {
        assert(replies_sent(answers(shelf, jobs, outsides)) =~= replies_due(jobs));
    } else {
        let (after, last) = served(shelf, jobs[0], outsides[0]);
        law_every_request_is_answered(shelf, jobs[0], outsides[0]);
        law_answers_come_in_order(after, jobs.drop_first(), outsides.drop_first());
        let rest = answers(after, jobs.drop_first(), outsides.drop_first());
        assert(replies_sent(answers(shelf, jobs, outsides)) =~= (match last {
            Step::Send(answer) => seq![answer.reply],
            _ => Seq::<R>::empty(),
        }) + replies_sent(rest));
    }
}

proof fn lemma_replies_due_of_a_prefix<A, R>(first: Seq<Job<A, R>>, rest: Seq<Job<A, R>>)
    ensures
        replies_due(first).is_prefix_of(replies_due(first + rest)),
    decreases first.len(),
{
    if first.len() > 0 && !(first[0] is Stop) {
        lemma_replies_due_of_a_prefix(first.drop_first(), rest);
        assert((first + rest).drop_first() =~= first.drop_first() + rest);
        let head = match first[0].reply_to() {
            Some(reply) => seq![reply],
            None => Seq::<R>::empty(),
        };
        let some = replies_due(first.drop_first());
        let all = replies_due(first.drop_first() + rest);
        assert(head + some =~= (head + all).subrange(0, (head + some).len() as int)) by {
            assert(some =~= all.subrange(0, some.len() as int));
        }
    }
}

/// Whether any of `jobs` stops the thread.
pub open spec fn holds_stop<A, R>(jobs: Seq<Job<A, R>>) -> bool {
    exists|i: int| 0 <= i < jobs.len() && #[trigger] jobs[i] is Stop
}

/// What the thread does once it has worked on `jobs`, one after the other, as far
/// as they go. `closed` says whether nobody is left who could ask for more.
pub open spec fn step_after<A, R, D, M>(
    shelf: Shelf<M>,
    jobs: Seq<Job<A, R>>,
    closed: bool,
    outsides: Seq<Outside<D, M>>,
) -> Step<A, R, D>
    decreases jobs.len(),
{
    if jobs.len() == 0 {
        step_for_next(
            if closed {
                Next::<A, R>::Closed
            } else {
                Next::Wait
            },
        )
    } else {
        let (after, last) = served(shelf, jobs[0], outsides[0]);
        if last is Quit {
            last
        } else {
            step_after(after, jobs.drop_first(), closed, outsides.drop_first())
        }
    }
}

/// The thread returns on a stop, or once its queue is closed and worked off, and
/// for no other reason: no answer, however bad, ends it.
pub proof fn law_only_a_stop_or_an_end_returns<A, R, D, M>(
    shelf: Shelf<M>,
    jobs: Seq<Job<A, R>>,
    closed: bool,
    outsides: Seq<Outside<D, M>>,
)
    requires
        outsides.len() == jobs.len(),
    ensures
        step_after(shelf, jobs, closed, outsides) == (if closed || holds_stop(jobs) {
            Step::<A, R, D>::Quit
        } else {
            Step::Wait
        }),
    decreases jobs.len(),
{
    if jobs.len() > 0 {
        let (after, _) = served(shelf, jobs[0], outsides[0]);
        law_every_request_is_answered(shelf, jobs[0], outsides[0]);
        let rest = jobs.drop_first();
        law_only_a_stop_or_an_end_returns(after, rest, closed, outsides.drop_first());
        if holds_stop(jobs) && !(jobs[0] is Stop) {
            let i = choose|i: int| 0 <= i < jobs.len() && #[trigger] jobs[i] is Stop;
            assert(rest[i - 1] is Stop);
        }
        if holds_stop(rest) {
            let i = choose|i: int| 0 <= i < rest.len() && #[trigger] rest[i] is Stop;
            assert(jobs[i + 1] is Stop);
        }
    }
}

/// Nothing that comes after a stop is answered, and everything before it is.
pub proof fn law_a_stop_ends_the_answers<A, R>(before: Seq<Job<A, R>>, after: Seq<Job<A, R>>)
    ensures
        replies_due(before + seq![Job::Stop] + after) == replies_due(before),
    decreases before.len(),
{
    let jobs = before + seq![Job::Stop] + after;
    if before.len() > 0 && !(before[0] is Stop) {
        law_a_stop_ends_the_answers(before.drop_first(), after);
        assert(jobs.drop_first() =~= before.drop_first() + seq![Job::Stop] + after);
    }
}

/// However asking and serving interleave, answers arrive in the order in which
/// the requests were put into the queue, none left out: at any moment, those that
/// have arrived are the first of those that are due.
pub proof fn law_answers_follow_the_queue<A, R, D, M>(
    acts: Seq<Act<A, R>>,
    shelf: Shelf<M>,
    outsides: Seq<Outside<D, M>>,
)
    requires
        outsides.len() == Desk::<A, R>::fresh().given_by(acts).len(),
    ensures
        replies_sent(
            answers(shelf, Desk::<A, R>::fresh().given_by(acts), outsides),
        ).is_prefix_of(replies_due(Desk::<A, R>::fresh().admitted_by(acts))),
{
    let desk = Desk::<A, R>::fresh();
    crate::speech::law_jobs_keep_their_order(desk, acts);
    law_answers_come_in_order(shelf, desk.given_by(acts), outsides);
    lemma_replies_due_of_a_prefix(desk.given_by(acts), desk.after_all(acts).jobs);
    assert(desk.jobs + desk.admitted_by(acts) =~= desk.admitted_by(acts));
}

/// There is a place for each model, and what is put into one leaves the other alone.
pub proof fn law_each_model_has_its_place<M>(
    shelf: Shelf<M>,
    model: Model,
    other: Model,
    loaded: Option<M>,
)
    ensures
        shelf.slot(Model::Accurate) == shelf.accurate,
        shelf.slot(Model::Live) == shelf.live,
        shelf.with(model, loaded).slot(model) == loaded,
        other != model ==> shelf.with(model, loaded).slot(other) == shelf.slot(other),
        Shelf::<M>::empty().slot(model) is None,
{
}

/// Taking up a reset always leaves no live model loaded and the accurate one as it
/// was. Taking up anything else, or nothing, leaves both as they were.
pub proof fn law_a_reset_always_drops_the_live_model<A, R, M>(shelf: Shelf<M>, next: Next<A, R>)
    ensures
        next matches Next::Job(Job::Reset) ==> shelf.after_next(next).live is None,
        next matches Next::Job(Job::Reset) ==> shelf.after_next(next).accurate == shelf.accurate,
        !(next matches Next::Job(Job::Reset)) ==> shelf.after_next(next) == shelf,
{
}

/// Whatever was worked on before, the chunk after a reset loads the live model anew,
/// from where it is found then: no utterance starts on the cache of another.
pub proof fn law_the_next_utterance_starts_clean<A, R, D, M>(
    shelf: Shelf<M>,
    before: Job<A, R>,
    outside: Outside<D, M>,
    audio: A,
    reply: R,
    dir: D,
)
    ensures
        ({
            let then = served(shelf, before, outside).0.after_next(Next::Job(Job::<A, R>::Reset));
            let request = Request { model: Model::Live, audio, reply };
            &&& step_for_next::<A, R, D>(Next::Job(Job::Chunk { audio, reply })) == Step::<
                A,
                R,
                D,
            >::Resolve(request)
            &&& step_once_resolved(then, request, Some(dir)) == Step::Load(request, dir)
        }),
{
}

/// A request is taken up by the model it is for, with its own audio and its own
/// reply; a stop or a closed queue ends the thread; anything else has it ask again.
pub proof fn law_what_is_taken_up<A, R, D>(next: Next<A, R>)
    ensures
        next matches Next::Job(Job::Whole { audio, reply }) ==> (step_for_next::<A, R, D>(
            next,
        ) matches Step::Resolve(request) && request.model == Model::Accurate && request.audio
            == audio && request.reply == reply),
        next matches Next::Job(Job::Chunk { audio, reply }) ==> (step_for_next::<A, R, D>(
            next,
        ) matches Step::Resolve(request) && request.model == Model::Live && request.audio
            == audio && request.reply == reply),
        step_for_next::<A, R, D>(next) is Quit <==> next is Closed || next
            == Next::<A, R>::Job(Job::Stop),
        step_for_next::<A, R, D>(next) is Wait <==> next is Wait || next
            == Next::<A, R>::Job(Job::Reset),
{
}

/// A model that is nowhere is never run nor loaded: its request is refused, naming
/// it. One that is somewhere is run if it is loaded, and else loaded from there.
pub proof fn law_what_follows_the_search<A, R, D, M>(
    shelf: Shelf<M>,
    request: Request<A, R>,
    dir: D,
)
    ensures
        step_once_resolved(shelf, request, None::<D>) matches Step::Send(answer) && answer.reply
            == request.reply && answer.result == Err::<String, SpeechError>(
            SpeechError::NotInstalled(request.model),
        ),
        (if request.model == Model::Accurate {
            shelf.accurate
        } else {
            shelf.live
        }) is Some ==> (step_once_resolved(shelf, request, Some(dir)) matches Step::Run(
            run,
            manner,
        ) && run == request && manner == manner_of(request.model)),
        (if request.model == Model::Accurate {
            shelf.accurate
        } else {
            shelf.live
        }) is None ==> (step_once_resolved(shelf, request, Some(dir)) matches Step::Load(
            load,
            from,
        ) && load == request && from == dir),
{
}

/// A model that loads is kept in its own place and run on the very request it was
/// loaded for. One that does not is answered with the error, and nothing is kept.
pub proof fn law_what_follows_the_loading<A, R, D, M>(
    shelf: Shelf<M>,
    request: Request<A, R>,
    engine: M,
    error: String,
)
    ensures
        shelf.after_load(Model::Accurate, Ok(engine)) == (Shelf {
            accurate: Some(engine),
            live: shelf.live,
        }),
        shelf.after_load(Model::Live, Ok(engine)) == (Shelf {
            accurate: shelf.accurate,
            live: Some(engine),
        }),
        shelf.after_load(request.model, Err(error)) == shelf,
        step_once_loaded::<A, R, D, M>(request, Ok(engine)) matches Step::Run(run, manner) && run
            == request && manner == manner_of(request.model),
        step_once_loaded::<A, R, D, M>(request, Err(error)) matches Step::Send(answer)
            && answer.reply == request.reply && answer.result == Err::<String, SpeechError>(
            SpeechError::Load(error),
        ),
{
}

/// What a model says is answered word for word, and so is the error of one that
/// fails, where the request asked for it.
pub proof fn law_what_follows_the_run<R>(reply: R, text: String, error: String)
    ensures
        answer_once_run(reply, Ok(text)).reply == reply,
        answer_once_run(reply, Ok(text)).result == Ok::<String, SpeechError>(text),
        answer_once_run(reply, Err(error)).reply == reply,
        answer_once_run(reply, Err(error)).result == Err::<String, SpeechError>(
            SpeechError::Transcribe(error),
        ),
{
}

/// Whole utterances, and they alone, are run at the rate of the microphone, in one
/// channel and with the times of sentences.
pub proof fn law_each_model_has_its_manner(model: Model)
    ensures
        model == Model::Accurate <==> manner_of(model) is Utterance,
        manner_of(model) matches Manner::Utterance { sample_rate, channels, stamps } ==> sample_rate
            == 16_000 && channels == 1 && stamps == Stamps::Sentences,
{
}

} // verus!

//! The desk between an app and the speech models.
//!
//! Neither model is fast enough for a main loop, so they live on a thread of
//! their own and are spoken to through a queue of jobs. This module holds that
//! queue, who may join it, and what is answered to those who may not. What the
//! thread does with a job is in [`crate::worker`].
//!
//! `A` is the audio of a job and `R` is where its answer goes; the desk hands on
//! both and looks into neither.

use crate::models::Model;
use std::collections::VecDeque;
use vstd::calc;
use vstd::prelude::*;
use vstd::string::*;

verus! {

/// Chunk the streaming encoder was built around, in samples at 16 kHz: 560 ms.
///
/// Not a free parameter: a different one is not what the model was trained on.
/// And it emits nothing at all until it has a whole one, so the remainder left
/// when somebody stops talking has to be padded to this and sent, or the last
/// words are never decoded.
pub const STREAM_CHUNK: usize = 8_960;

/// A failure worth telling the user about.
#[derive(Debug)]
pub enum SpeechError {
    NotInstalled(Model),
    /// A pass over an earlier utterance is still running.
    Busy,
    Load(String),
    Transcribe(String),
}

/// What the user is told about a failure.
pub open spec fn speech_error_text(error: SpeechError) -> Seq<char> {
    match error {
        SpeechError::NotInstalled(_) => "No speech model is installed."@,
        SpeechError::Busy => "Still working out what was said a moment ago."@,
        SpeechError::Load(error) => "The speech model could not be loaded: "@ + error@,
        SpeechError::Transcribe(error) => "What you said could not be transcribed: "@ + error@,
    }
}

impl SpeechError {
    /// The failure as the user reads it.
    pub fn message(&self) -> (r: String)
        ensures
            r@ == speech_error_text(*self),
    {
        match self {
            SpeechError::NotInstalled(_) => String::from_str("No speech model is installed."),
            SpeechError::Busy => String::from_str("Still working out what was said a moment ago."),
            SpeechError::Load(error) => String::from_str(
                "The speech model could not be loaded: ",
            ).concat(error.as_str()),
            SpeechError::Transcribe(error) => String::from_str(
                "What you said could not be transcribed: ",
            ).concat(error.as_str()),
        }
    }
}

/// What the thread is asked to do.
#[derive(Debug)]
pub enum Job<A, R> {
    /// Transcribe a whole utterance with the accurate model.
    Whole { audio: A, reply: R },
    /// Feed one chunk to the live model.
    Chunk { audio: A, reply: R },
    /// Forget the streaming encoder's cache so the next utterance starts clean.
    Reset,
    /// Finish.
    Stop,
}

impl<A, R> Job<A, R> {
    /// The model a job needs, if it is one that gets an answer.
    pub open spec fn wants(self) -> Option<Model> {
        match self {
            Job::Whole { .. } => Some(Model::Accurate),
            Job::Chunk { .. } => Some(Model::Live),
            Job::Reset => None,
            Job::Stop => None,
        }
    }

    /// Where the answer to a job goes, if it gets one.
    pub open spec fn reply_to(self) -> Option<R> {
        match self {
            Job::Whole { reply, .. } => Some(reply),
            Job::Chunk { reply, .. } => Some(reply),
            Job::Reset => None,
            Job::Stop => None,
        }
    }
}

/// What is answered, and where to.
#[derive(Debug)]
pub struct Answer<R> {
    pub reply: R,
    pub result: Result<String, SpeechError>,
}

/// What the thread gets when it asks for work.
#[derive(Debug)]
pub enum Next<A, R> {
    /// A job to work on.
    Job(Job<A, R>),
    /// Nothing yet.
    Wait,
    /// Nothing waits any more, and nobody is left who could ask for anything.
    Closed,
}

/// How many of `jobs` are passes over a whole utterance.
pub open spec fn passes<A, R>(jobs: Seq<Job<A, R>>) -> nat
    decreases jobs.len(),
{
    if jobs.len() == 0 {
        0
    } else {
        passes(jobs.drop_first()) + (if jobs[0] is Whole {
            1nat
        } else {
            0
        })
    }
}

/// The state of the desk.
#[verifier::ext_equal]
pub struct Desk<A, R> {
    /// The jobs that wait, the next one first.
    pub jobs: Seq<Job<A, R>>,
    /// Whether an accurate pass is outstanding.
    pub busy: bool,
    /// The model whose answer the thread is working on.
    pub serving: Option<Model>,
    /// Whether nobody is left who could ask for anything.
    pub closed: bool,
}

impl<A, R> Desk<A, R> {
    /// Nothing waits and nothing is being worked on.
    pub open spec fn fresh() -> Desk<A, R> {
        Desk { jobs: Seq::empty(), busy: false, serving: None, closed: false }
    }

    /// How many accurate passes wait or are being worked on.
    pub open spec fn outstanding(self) -> nat {
        passes(self.jobs) + (if self.serving == Some(Model::Accurate) {
            1nat
        } else {
            0
        })
    }

    /// The desk is busy exactly while an accurate pass is outstanding, and there
    /// is never a second one.
    pub open spec fn wf(self) -> bool {
        self.outstanding() == (if self.busy {
            1nat
        } else {
            0
        })
    }

    /// The desk with one more job in the queue.
    pub open spec fn queued(self, job: Job<A, R>) -> Desk<A, R> {
        Desk { jobs: self.jobs.push(job), ..self }
    }

    /// The desk once it was asked for an accurate pass.
    pub open spec fn asked(self, audio: A, reply: R) -> Desk<A, R> {
        if self.busy {
            self
        } else {
            Desk { busy: true, ..self.queued(Job::Whole { audio, reply }) }
        }
    }

    /// Whether there is a job that the thread can be given now.
    pub open spec fn has_next(self) -> bool {
        self.serving is None && self.jobs.len() > 0
    }

    /// What the thread gets if it asks for work now.
    pub open spec fn next(self) -> Next<A, R> {
        if self.has_next() {
            Next::Job(self.jobs[0])
        } else if self.serving is None && self.closed {
            Next::Closed
        } else {
            Next::Wait
        }
    }

    /// The desk once the thread was given the next job, if there was one.
    pub open spec fn handed_on(self) -> Desk<A, R> {
        if self.has_next() {
            Desk { jobs: self.jobs.drop_first(), serving: self.jobs[0].wants(), ..self }
        } else {
            self
        }
    }

    /// The desk once the job being worked on has its answer.
    pub open spec fn completed(self) -> Desk<A, R> {
        Desk { busy: self.busy && self.serving != Some(Model::Accurate), serving: None, ..self }
    }

    /// The desk once nobody is left who could ask for anything.
    pub open spec fn shut(self) -> Desk<A, R> {
        Desk { closed: true, ..self }
    }
}

/// A handle to the speech models.
#[derive(Debug)]
pub struct Speech<A, R> {
    jobs: VecDeque<Job<A, R>>,
    /// Set while an accurate pass is outstanding, so a second stop cannot queue a
    /// second pass over the same audio.
    busy: bool,
    serving: Option<Model>,
    closed: bool,
}

impl<A, R> View for Speech<A, R> {
    type V = Desk<A, R>;

    closed spec fn view(&self) -> Desk<A, R> {
        Desk { jobs: self.jobs@, busy: self.busy, serving: self.serving, closed: self.closed }
    }
}

proof fn lemma_passes_push<A, R>(jobs: Seq<Job<A, R>>, job: Job<A, R>)
    ensures
        passes(jobs.push(job)) == passes(jobs) + (if job is Whole {
            1nat
        } else {
            0
        }),
    decreases jobs.len(),
{
    if jobs.len() == 0 {
        assert(jobs.push(job).drop_first() =~= jobs);
    } else {
        lemma_passes_push(jobs.drop_first(), job);
        assert(jobs.push(job).drop_first() =~= jobs.drop_first().push(job));
    }
}

impl<A, R> Speech<A, R> {
    /// A desk with nothing to do.
    pub fn new() -> (r: Self)
        ensures
            r@ == Desk::<A, R>::fresh(),
            r@.wf(),
    {
        Speech { jobs: VecDeque::new(), busy: false, serving: None, closed: false }
    }

    /// Whether an accurate pass is outstanding.
    pub fn is_busy(&self) -> (r: bool)
        ensures
            r == self@.busy,
    {
        self.busy
    }

    /// Transcribe a finished utterance.
    ///
    /// While an earlier pass is outstanding the request is answered at once
    /// rather than dropped: returning silently would leave the caller waiting for
    /// an answer that will never come.
    pub fn transcribe(&mut self, audio: A, done: R) -> (r: Option<Answer<R>>)
        requires
            old(self)@.wf(),
        ensures
            final(self)@ == old(self)@.asked(audio, done),
            final(self)@.wf(),
            r == (if old(self)@.busy {
                Some(Answer { reply: done, result: Err(SpeechError::Busy) })
            } else {
                None
            }),
    {
        if self.busy {
            return Some(Answer { reply: done, result: Err(SpeechError::Busy) });
        }
        proof {
            lemma_passes_push(self.jobs@, Job::Whole { audio, reply: done });
        }
        self.busy = true;
        self.jobs.push_back(Job::Whole { audio, reply: done });
        None
    }

    /// Feed one chunk to the live model.
    ///
    /// Answers arrive in the order the chunks were queued, which is what lets a
    /// caller flush the remainder at the end and read the finished transcript in
    /// that chunk's answer.
    pub fn feed(&mut self, audio: A, done: R)
        requires
            old(self)@.wf(),
        ensures
            final(self)@ == old(self)@.queued(Job::Chunk { audio, reply: done }),
            final(self)@.wf(),
    {
        proof {
            lemma_passes_push(self.jobs@, Job::Chunk { audio, reply: done });
        }
        self.jobs.push_back(Job::Chunk { audio, reply: done });
    }

    /// Forget the streaming encoder's state before a new utterance.
    pub fn reset(&mut self)
        requires
            old(self)@.wf(),
        ensures
            final(self)@ == old(self)@.queued(Job::Reset),
            final(self)@.wf(),
    {
        proof {
            lemma_passes_push(self.jobs@, Job::Reset);
        }
        self.jobs.push_back(Job::Reset);
    }

    /// Let the thread finish what was queued before, and no more.
    pub fn stop(&mut self)
        requires
            old(self)@.wf(),
        ensures
            final(self)@ == old(self)@.queued(Job::Stop),
            final(self)@.wf(),
    {
        proof {
            lemma_passes_push(self.jobs@, Job::Stop);
        }
        self.jobs.push_back(Job::Stop);
    }

    /// Nobody is left who could ask for anything. What waits is still worked on.
    pub fn close(&mut self)
        requires
            old(self)@.wf(),
        ensures
            final(self)@ == old(self)@.shut(),
            final(self)@.wf(),
    {
        self.closed = true;
    }

    /// Work for the thread. There is none while a job is being worked on.
    pub fn next_job(&mut self) -> (r: Next<A, R>)
        requires
            old(self)@.wf(),
        ensures
            final(self)@ == old(self)@.handed_on(),
            final(self)@.wf(),
            r == old(self)@.next(),
    {
        if self.serving.is_some() {
            return Next::Wait;
        }
        match self.jobs.pop_front() {
            None => if self.closed {
                Next::Closed
            } else {
                Next::Wait
            },
            Some(job) => {
                self.serving = match &job {
                    Job::Whole { .. } => Some(Model::Accurate),
                    Job::Chunk { .. } => Some(Model::Live),
                    Job::Reset => None,
                    Job::Stop => None,
                };
                assert(self@ =~= old(self)@.handed_on());
                Next::Job(job)
            },
        }
    }

    /// Let the answer to the job being worked on leave.
    ///
    /// What comes out is what is sent. The desk is free by then, so whoever gets
    /// the answer to a pass, good or bad, can ask for the next one at once.
    pub fn answered(&mut self, answer: Answer<R>) -> (r: Answer<R>)
        requires
            old(self)@.wf(),
        ensures
            r == answer,
            final(self)@ == old(self)@.completed(),
            final(self)@.wf(),
    {
        if let Some(Model::Accurate) = self.serving {
            self.busy = false;
        }
        self.serving = None;
        answer
    }
}

/// Anything that can happen at the desk.
pub enum Act<A, R> {
    Transcribe { audio: A, reply: R },
    Feed { audio: A, reply: R },
    Reset,
    Stop,
    /// The thread asks for the next job.
    Next,
    /// The answer to the job that the thread was given leaves.
    Answered(Answer<R>),
    /// Nobody is left who could ask for anything.
    Close,
}

impl<A, R> Desk<A, R> {
    /// The desk after one act.
    pub open spec fn after(self, act: Act<A, R>) -> Desk<A, R> {
        match act {
            Act::Transcribe { audio, reply } => self.asked(audio, reply),
            Act::Feed { audio, reply } => self.queued(Job::Chunk { audio, reply }),
            Act::Reset => self.queued(Job::Reset),
            Act::Stop => self.queued(Job::Stop),
            Act::Next => self.handed_on(),
            Act::Answered(_) => self.completed(),
            Act::Close => self.shut(),
        }
    }

    /// The job that one act puts into the queue, if any.
    pub open spec fn admitted(self, act: Act<A, R>) -> Seq<Job<A, R>> {
        match act {
            Act::Transcribe { audio, reply } => if self.busy {
                Seq::empty()
            } else {
                seq![Job::Whole { audio, reply }]
            },
            Act::Feed { audio, reply } => seq![Job::Chunk { audio, reply }],
            Act::Reset => seq![Job::Reset],
            Act::Stop => seq![Job::Stop],
            Act::Next => Seq::empty(),
            Act::Answered(_) => Seq::empty(),
            Act::Close => Seq::empty(),
        }
    }

    /// The job that one act gives to the thread, if any.
    pub open spec fn given(self, act: Act<A, R>) -> Seq<Job<A, R>> {
        if act is Next && self.has_next() {
            seq![self.jobs[0]]
        } else {
            Seq::empty()
        }
    }

    /// The desk after all of `acts`, one after the other.
    pub open spec fn after_all(self, acts: Seq<Act<A, R>>) -> Desk<A, R>
        decreases acts.len(),
    {
        if acts.len() == 0 {
            self
        } else {
            self.after_all(acts.drop_last()).after(acts.last())
        }
    }

    /// The jobs that `acts` put into the queue, in that order.
    pub open spec fn admitted_by(self, acts: Seq<Act<A, R>>) -> Seq<Job<A, R>>
        decreases acts.len(),
    {
        if acts.len() == 0 {
            Seq::empty()
        } else {
            self.admitted_by(acts.drop_last()) + self.after_all(acts.drop_last()).admitted(
                acts.last(),
            )
        }
    }

    /// The jobs that `acts` gave to the thread, in that order.
    pub open spec fn given_by(self, acts: Seq<Act<A, R>>) -> Seq<Job<A, R>>
        decreases acts.len(),
    {
        if acts.len() == 0 {
            Seq::empty()
        } else {
            self.given_by(acts.drop_last()) + self.after_all(acts.drop_last()).given(acts.last())
        }
    }
}

/// Whatever happens at a desk, and in whatever order, it is busy exactly while
/// one accurate pass waits or is being worked on, and there is never a second.
pub proof fn law_one_pass_at_a_time<A, R>(desk: Desk<A, R>, acts: Seq<Act<A, R>>)
    requires
        desk.wf(),
    ensures
        desk.after_all(acts).wf(),
        desk.after_all(acts).outstanding() <= 1,
        desk.after_all(acts).busy <==> desk.after_all(acts).outstanding() == 1,
    decreases acts.len(),
{
    if acts.len() > 0 {
        law_one_pass_at_a_time(desk, acts.drop_last());
        let before = desk.after_all(acts.drop_last());
        match acts.last() {
            Act::Transcribe { audio, reply } => {
                lemma_passes_push(before.jobs, Job::Whole { audio, reply });
            },
            Act::Feed { audio, reply } => {
                lemma_passes_push(before.jobs, Job::Chunk { audio, reply });
            },
            Act::Reset => {
                lemma_passes_push(before.jobs, Job::Reset);
            },
            Act::Stop => {
                lemma_passes_push(before.jobs, Job::Stop);
            },
            Act::Next => {},
            Act::Answered(_) => {},
            Act::Close => {},
        }
    }
}

/// However asking and serving interleave, no job is lost, none is repeated and
/// none overtakes another: what the thread was given, followed by what still
/// waits, is what waited at first, followed by what was put into the queue.
pub proof fn law_jobs_keep_their_order<A, R>(desk: Desk<A, R>, acts: Seq<Act<A, R>>)
    ensures
        desk.given_by(acts) + desk.after_all(acts).jobs == desk.jobs + desk.admitted_by(acts),
    decreases acts.len(),
{
    if acts.len() == 0 {
        assert(desk.given_by(acts) + desk.jobs =~= desk.jobs + desk.admitted_by(acts));
    } else {
        let earlier = acts.drop_last();
        let act = acts.last();
        law_jobs_keep_their_order(desk, earlier);
        let before = desk.after_all(earlier);
        assert(before.given(act) + before.after(act).jobs =~= before.jobs + before.admitted(act));
        calc! {
            (==)
            desk.given_by(acts) + desk.after_all(acts).jobs; {
                assert((desk.given_by(earlier) + before.given(act)) + before.after(act).jobs
                    =~= desk.given_by(earlier) + (before.given(act) + before.after(act).jobs));
            }
            desk.given_by(earlier) + (before.jobs + before.admitted(act)); {
                assert(desk.given_by(earlier) + (before.jobs + before.admitted(act)) =~= (
                desk.given_by(earlier) + before.jobs) + before.admitted(act));
            }
            (desk.jobs + desk.admitted_by(earlier)) + before.admitted(act); {
                assert((desk.jobs + desk.admitted_by(earlier)) + before.admitted(act) =~= desk.jobs
                    + (desk.admitted_by(earlier) + before.admitted(act)));
            }
            desk.jobs + desk.admitted_by(acts);
        }
    }
}

/// The thread is never given a job before the one it has is answered.
pub proof fn law_one_job_at_a_time<A, R>(desk: Desk<A, R>, act: Act<A, R>)
    requires
        desk.serving is Some,
    ensures
        desk.given(act).len() == 0,
        desk.after(act).serving == (if act is Answered {
            None
        } else {
            desk.serving
        }),
{
}

/// Only the answer to a pass frees the desk: no other answer does.
pub proof fn law_only_its_answer_ends_a_pass<A, R>(desk: Desk<A, R>, act: Act<A, R>)
    requires
        desk.wf(),
        desk.busy,
        !(act is Answered && desk.serving == Some(Model::Accurate)),
    ensures
        desk.after(act).busy,
{
}

/// Once the answer to a pass has left, whatever it says, the desk is free, and it
/// stays free while nobody asks for another pass: the next one asked for is
/// admitted, be it from where that answer arrives.
pub proof fn law_whoever_is_answered_can_ask_again<A, R>(
    desk: Desk<A, R>,
    answer: Answer<R>,
    meanwhile: Seq<Act<A, R>>,
    audio: A,
    reply: R,
)
    requires
        desk.wf(),
        desk.serving == Some(Model::Accurate),
        forall|i: int| 0 <= i < meanwhile.len() ==> !(#[trigger] meanwhile[i] is Transcribe),
    ensures
        desk.busy,
        ({
            let then = desk.after(Act::Answered(answer)).after_all(meanwhile);
            !then.busy && then.admitted(Act::Transcribe { audio, reply }) == seq![
                Job::Whole { audio, reply },
            ]
        }),
    decreases meanwhile.len(),
{
    if meanwhile.len() > 0 {
        let earlier = meanwhile.drop_last();
        law_whoever_is_answered_can_ask_again(desk, answer, earlier, audio, reply);
        assert(!(meanwhile[meanwhile.len() - 1] is Transcribe));
    }
}

/// A desk that nobody can ask any more stays so, and gives out what still waits,
/// first things first, before it says that nothing is left.
pub proof fn law_a_closed_desk_runs_dry<A, R>(desk: Desk<A, R>, acts: Seq<Act<A, R>>)
    requires
        desk.closed,
    ensures
        ({
            let then = desk.after_all(acts);
            &&& then.closed
            &&& then.serving is None ==> then.next() == (if then.jobs.len() > 0 {
                Next::Job(then.jobs[0])
            } else {
                Next::Closed
            })
        }),
    decreases acts.len(),
{
    if acts.len() > 0 {
        law_a_closed_desk_runs_dry(desk, acts.drop_last());
    }
}

/// A failure is told with the whole of the error behind it, if there is one.
pub proof fn law_a_failure_is_told_in_full(error: SpeechError)
    ensures
        error is NotInstalled ==> speech_error_text(error) == "No speech model is installed."@,
        error is Busy ==> speech_error_text(error)
            == "Still working out what was said a moment ago."@,
        error matches SpeechError::Load(inner) ==> {
            let text = speech_error_text(error);
            &&& "The speech model could not be loaded: "@.is_prefix_of(text)
            &&& inner@.is_suffix_of(text)
            &&& text.len() == "The speech model could not be loaded: "@.len() + inner@.len()
        },
        error matches SpeechError::Transcribe(inner) ==> {
            let text = speech_error_text(error);
            &&& "What you said could not be transcribed: "@.is_prefix_of(text)
            &&& inner@.is_suffix_of(text)
            &&& text.len() == "What you said could not be transcribed: "@.len() + inner@.len()
        },
{
    let text = speech_error_text(error);
    if let SpeechError::Load(inner) = error {
        let start = "The speech model could not be loaded: "@;
        assert(start =~= text.subrange(0, start.len() as int));
        assert(inner@ =~= text.subrange(start.len() as int, text.len() as int));
    }
    if let SpeechError::Transcribe(inner) = error {
        let start = "What you said could not be transcribed: "@;
        assert(start =~= text.subrange(0, start.len() as int));
        assert(inner@ =~= text.subrange(start.len() as int, text.len() as int));
    }
}

/// A whole utterance needs the accurate model and a chunk the live one, and either
/// is answered where it asked to be. Nothing else is.
pub proof fn law_a_job_says_who_and_where<A, R>(audio: A, reply: R)
    ensures
        (Job::Whole { audio, reply }).wants() == Some(Model::Accurate),
        (Job::Chunk { audio, reply }).wants() == Some(Model::Live),
        Job::<A, R>::Reset.wants() is None,
        Job::<A, R>::Stop.wants() is None,
        (Job::Whole { audio, reply }).reply_to() == Some(reply),
        (Job::Chunk { audio, reply }).reply_to() == Some(reply),
        Job::<A, R>::Reset.reply_to() is None,
        Job::<A, R>::Stop.reply_to() is None,
{
}

/// Passes are counted one by one: none in an empty queue, and those of two queues
/// together are those of the one and those of the other.
pub proof fn law_passes_are_counted<A, R>(
    first: Seq<Job<A, R>>,
    second: Seq<Job<A, R>>,
    job: Job<A, R>,
)
    ensures
        passes(Seq::<Job<A, R>>::empty()) == 0,
        passes(seq![job]) == (if job is Whole {
            1nat
        } else {
            0
        }),
        passes(first + second) == passes(first) + passes(second),
    decreases first.len(),
{
    assert(passes(Seq::<Job<A, R>>::empty()) == 0);
    assert(seq![job].drop_first() =~= Seq::<Job<A, R>>::empty());
    if first.len() == 0 {
        assert(first + second =~= second);
    } else {
        law_passes_are_counted(first.drop_first(), second, job);
        assert((first + second).drop_first() =~= first.drop_first() + second);
    }
}

proof fn lemma_no_pass<A, R>(jobs: Seq<Job<A, R>>)
    ensures
        passes(jobs) == 0 <==> forall|i: int| 0 <= i < jobs.len() ==> !(#[trigger] jobs[i] is Whole),
    decreases jobs.len(),
{
    if jobs.len() > 0 {
        let rest = jobs.drop_first();
        lemma_no_pass(rest);
        if passes(jobs) == 0 {
            assert forall|i: int| 0 <= i < jobs.len() implies !(#[trigger] jobs[i] is Whole) by {
                if i > 0 {
                    assert(jobs[i] == rest[i - 1]);
                }
            }
        } else if forall|i: int| 0 <= i < jobs.len() ==> !(#[trigger] jobs[i] is Whole) {
            assert forall|i: int| 0 <= i < rest.len() implies !(#[trigger] rest[i] is Whole) by {
                assert(rest[i] == jobs[i + 1]);
            }
            assert(!(jobs[0] is Whole));
        }
    }
}

proof fn lemma_two_passes<A, R>(jobs: Seq<Job<A, R>>, i: int, j: int)
    requires
        0 <= i < j < jobs.len(),
        jobs[i] is Whole,
        jobs[j] is Whole,
    ensures
        passes(jobs) >= 2,
{
    let first = jobs.take(j);
    let second = jobs.skip(j);
    assert(jobs =~= first + second);
    law_passes_are_counted(first, second, jobs[j]);
    lemma_no_pass(first);
    lemma_no_pass(second);
    assert(first[i] is Whole);
    assert(second[0] is Whole);
}

/// What it is for a desk to be in order: while it is free no pass waits and none is
/// being worked on; while it is busy one waits or is being worked on, not both, and
/// no two wait.
pub proof fn law_a_desk_in_order<A, R>(desk: Desk<A, R>)
    requires
        desk.wf(),
    ensures
        !desk.busy ==> desk.serving != Some(Model::Accurate) && forall|i: int|
            0 <= i < desk.jobs.len() ==> !(#[trigger] desk.jobs[i] is Whole),
        desk.busy ==> (desk.serving == Some(Model::Accurate) <==> forall|i: int|
            0 <= i < desk.jobs.len() ==> !(#[trigger] desk.jobs[i] is Whole)),
        forall|i: int, j: int|
            0 <= i < j < desk.jobs.len() ==> !(#[trigger] desk.jobs[i] is Whole
                && #[trigger] desk.jobs[j] is Whole),
{
    lemma_no_pass(desk.jobs);
    assert forall|i: int, j: int| 0 <= i < j < desk.jobs.len() implies !(
    #[trigger] desk.jobs[i] is Whole && #[trigger] desk.jobs[j] is Whole) by {
        if desk.jobs[i] is Whole && desk.jobs[j] is Whole {
            lemma_two_passes(desk.jobs, i, j);
        }
    }
}

/// A desk that is new is free, idle and open, and nothing waits at it.
pub proof fn law_a_new_desk_is_free<A, R>()
    ensures
        Desk::<A, R>::fresh().jobs.len() == 0,
        !Desk::<A, R>::fresh().busy,
        Desk::<A, R>::fresh().serving is None,
        !Desk::<A, R>::fresh().closed,
        Desk::<A, R>::fresh().wf(),
{
}

/// Whatever is queued goes to the end of the queue, and nothing else changes.
pub proof fn law_a_queue_grows_at_its_end<A, R>(desk: Desk<A, R>, job: Job<A, R>)
    ensures
        desk.queued(job).jobs.len() == desk.jobs.len() + 1,
        desk.queued(job).jobs.last() == job,
        desk.queued(job).jobs.drop_last() == desk.jobs,
        desk.queued(job).busy == desk.busy,
        desk.queued(job).serving == desk.serving,
        desk.queued(job).closed == desk.closed,
{
    assert(desk.queued(job).jobs.drop_last() =~= desk.jobs);
}

/// A pass asked for at a free desk goes to the end of the queue, with its audio and
/// its reply, and makes the desk busy; one asked for at a busy desk changes nothing.
pub proof fn law_a_free_desk_takes_a_pass<A, R>(desk: Desk<A, R>, audio: A, reply: R)
    ensures
        desk.busy ==> desk.asked(audio, reply) == desk,
        !desk.busy ==> {
            let then = desk.asked(audio, reply);
            &&& then.busy
            &&& then.jobs.len() == desk.jobs.len() + 1
            &&& then.jobs.last() == Job::Whole { audio, reply }
            &&& then.jobs.drop_last() == desk.jobs
            &&& then.serving == desk.serving
            &&& then.closed == desk.closed
        },
{
    if !desk.busy {
        assert(desk.asked(audio, reply).jobs.drop_last() =~= desk.jobs);
    }
}

/// What the thread receives is what leaves the queue. It receives the first job
/// exactly if there is one and none is being worked on, whether the desk is busy or
/// free, open or closed; that job is then off the queue, with the others as they
/// were, and is being worked on if it is one that gets an answer. Where the thread
/// receives no job, nothing leaves.
pub proof fn law_the_thread_receives_what_leaves_the_queue<A, R>(desk: Desk<A, R>)
    ensures
        desk.next() is Job <==> desk.serving is None && desk.jobs.len() > 0,
        desk.next() is Closed <==> desk.serving is None && desk.jobs.len() == 0 && desk.closed,
        desk.next() matches Next::Job(job) ==> {
            let then = desk.handed_on();
            &&& desk.jobs == seq![job] + then.jobs
            &&& then.busy == desk.busy
            &&& then.closed == desk.closed
            &&& job is Whole ==> then.serving == Some(Model::Accurate)
            &&& job is Chunk ==> then.serving == Some(Model::Live)
            &&& job is Reset || job is Stop ==> then.serving is None
        },
        !(desk.next() is Job) ==> desk.handed_on() == desk,
        desk.given(Act::Next) == (match desk.next() {
            Next::Job(job) => seq![job],
            _ => Seq::empty(),
        }),
{
    if desk.next() is Job {
        assert(desk.jobs =~= seq![desk.next()->Job_0] + desk.handed_on().jobs);
    }
}

/// An answer leaves nothing being worked on and the queue as it is. It frees the
/// desk if it is the answer to a pass, and only then.
pub proof fn law_an_answer_ends_the_work<A, R>(desk: Desk<A, R>)
    ensures
        desk.completed().serving is None,
        desk.completed().jobs == desk.jobs,
        desk.completed().closed == desk.closed,
        desk.serving == Some(Model::Accurate) ==> !desk.completed().busy,
        desk.serving != Some(Model::Accurate) ==> desk.completed().busy == desk.busy,
{
}

/// Closing a desk does nothing else.
pub proof fn law_closing_leaves_the_queue<A, R>(desk: Desk<A, R>)
    ensures
        desk.shut().closed,
        desk.shut().jobs == desk.jobs,
        desk.shut().busy == desk.busy,
        desk.shut().serving == desk.serving,
{
}

/// What the thread receives if it asks for work `times` times and answers each job
/// before it asks again.
pub open spec fn received<A, R>(desk: Desk<A, R>, times: nat) -> Seq<Job<A, R>>
    decreases times,
{
    if times == 0 {
        Seq::empty()
    } else {
        (match desk.next() {
            Next::Job(job) => seq![job],
            _ => Seq::empty(),
        }) + received(desk.handed_on().completed(), (times - 1) as nat)
    }
}

/// A thread that answers what it is given receives every job that waits, each once
/// and in the order of the queue, however many there are.
pub proof fn law_every_job_is_received_in_turn<A, R>(desk: Desk<A, R>, times: nat)
    requires
        desk.serving is None,
    ensures
        received(desk, times) == (if times <= desk.jobs.len() {
            desk.jobs.take(times as int)
        } else {
            desk.jobs
        }),
    decreases times,
{
    let expected = if times <= desk.jobs.len() {
        desk.jobs.take(times as int)
    } else {
        desk.jobs
    };
    if times > 0 {
        law_the_thread_receives_what_leaves_the_queue(desk);
        law_every_job_is_received_in_turn(desk.handed_on().completed(), (times - 1) as nat);
    }
    assert(received(desk, times) =~= expected);
}

} // verus!

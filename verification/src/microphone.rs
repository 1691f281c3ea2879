//! The microphone.
//!
//! A capture is `pw-record` writing raw samples into a pipe: 16-bit little-endian
//! mono at 16 kHz, which is what the speech models want, so PipeWire does the
//! resampling and nothing here does. This module holds what a capture decides:
//! the command line, what the bytes of one read mean, what is kept, and whether
//! anybody has to be told that the reading ended. A sample is the `i16` that
//! arrived; the models take it divided by 32768.

use crate::text::trim;
use std::time::Duration;
use vstd::prelude::*;
use vstd::string::*;

verus! {

/// What the models expect. Not configurable, because nothing else is correct.
pub const SAMPLE_RATE: u32 = 16_000;

/// How much audio one read asks for, in milliseconds.
///
/// Short enough that a level meter looks live and an endpointer reacts, long
/// enough that the main loop is not woken constantly. A read almost never
/// returns this much, so anything keeping a clock has to use the length of the
/// audio it actually got.
pub const BLOCK_MS: u32 = 40;

/// How many bytes one read asks for: a whole number of 16-bit samples.
#[verifier::nonlinear]
pub const READ_BYTES: usize = (SAMPLE_RATE as usize * BLOCK_MS as usize / 1000) * 2;

/// Nanoseconds that one sample lasts.
pub const SAMPLE_NANOS: u32 = 62_500;

/// A refusal to start recording, in terms the user can act on. `E` is what the
/// failed attempt to run `pw-record` reported.
#[derive(Debug)]
pub enum StartError<E> {
    /// `pw-record` is not installed.
    ToolMissing,
    Spawn(E),
}

impl<E> StartError<E> {
    /// The error underneath, if there is one.
    pub fn source(&self) -> (r: Option<&E>)
        ensures
            r == (match *self {
                StartError::ToolMissing => None,
                StartError::Spawn(error) => Some(&error),
            }),
    {
        match self {
            StartError::ToolMissing => None,
            StartError::Spawn(error) => Some(error),
        }
    }
}

/// What the user is told about a refusal to start.
pub open spec fn start_error_text(error: StartError<String>) -> Seq<char> {
    match error {
        StartError::ToolMissing =>
            "pw-record is not installed. It comes with PipeWire, in the pipewire-bin package on Debian and Ubuntu and in pipewire-utils on Fedora."@,
        StartError::Spawn(error) => "The microphone could not be opened: "@ + error@,
    }
}

impl StartError<String> {
    /// The error as the user reads it.
    pub fn message(&self) -> (r: String)
        ensures
            r@ == start_error_text(*self),
    {
        match self {
            StartError::ToolMissing => String::from_str(
                "pw-record is not installed. It comes with PipeWire, in the pipewire-bin package on Debian and Ubuntu and in pipewire-utils on Fedora.",
            ),
            StartError::Spawn(error) => String::from_str(
                "The microphone could not be opened: ",
            ).concat(error.as_str()),
        }
    }
}

/// The texts of a list of strings.
pub open spec fn texts(list: Seq<String>) -> Seq<Seq<char>> {
    list.map_values(|s: String| s@)
}

/// The command line that records from the PipeWire node `source`, or from the
/// system default where `source` is blank.
pub open spec fn record_command(source: Seq<char>) -> Seq<Seq<char>> {
    let target = crate::text::trimmed(source);
    seq![
        "pw-record"@,
        "--rate"@,
        "16000"@,
        "--channels"@,
        "1"@,
        "--format"@,
        "s16"@,
    ] + (if target.len() > 0 {
        seq!["--target"@, target]
    } else {
        Seq::empty()
    }) + seq!["-"@]
}

/// The sample whose two bytes are `low` and `high`, in two's complement.
pub open spec fn sample_of(low: u8, high: u8) -> i16 {
    let value = low + 256 * high;
    if value < 0x8000 {
        value as i16
    } else {
        (value - 0x1_0000) as i16
    }
}

/// The samples in `bytes`. A byte without its other half is none.
pub open spec fn block_of(bytes: Seq<u8>) -> Seq<i16> {
    Seq::new(bytes.len() / 2, |i: int| sample_of(bytes[2 * i], bytes[2 * i + 1]))
}

/// Decode one read.
pub fn decode(bytes: &[u8]) -> (block: Vec<i16>)
    ensures
        block@ == block_of(bytes@),
{
    let usable: usize = bytes.len() - bytes.len() % 2;
    let mut block: Vec<i16> = Vec::new();
    let mut at: usize = 0;
    while at < usable
        invariant
            at <= usable,
            at % 2 == 0,
            usable == bytes@.len() - bytes@.len() % 2,
            block@.len() == at / 2,
            forall|i: int| 0 <= i < block@.len() ==> block@[i] == #[trigger] block_of(bytes@)[i],
        decreases usable - at,
    {
        let value: i32 = bytes[at] as i32 + 256 * bytes[at + 1] as i32;
        let sample: i16 = if value < 0x8000 {
            value as i16
        } else {
            (value - 0x1_0000) as i16
        };
        assert(sample == sample_of(bytes@[at as int], bytes@[at + 1]));
        assert(block_of(bytes@)[at as int / 2] == sample);
        block.push(sample);
        at = at + 2;
    }
    assert(block@ =~= block_of(bytes@));
    block
}

/// What came of one read of the pipe.
#[derive(Debug)]
pub enum PipeRead<'a> {
    /// The bytes that arrived. None at all means that the pipe was closed.
    Bytes(&'a [u8]),
    /// The read failed, and with what error.
    Failed(String),
}

/// What follows from one read of the pipe.
#[derive(Debug)]
pub enum Heard {
    /// New samples, which have been added to what is held. Read on.
    Block(Vec<i16>),
    /// There is nothing more to read. `Some` is why, for whoever has to be told
    /// that the microphone stopped of its own accord.
    Ended(Option<String>),
}

/// What a read of the pipe amounts to.
pub enum PipeReadView {
    Bytes(Seq<u8>),
    Failed(Seq<char>),
}

impl<'a> View for PipeRead<'a> {
    type V = PipeReadView;

    open spec fn view(&self) -> PipeReadView {
        match *self {
            PipeRead::Bytes(bytes) => PipeReadView::Bytes(bytes@),
            PipeRead::Failed(error) => PipeReadView::Failed(error@),
        }
    }
}

/// The state of a capture.
#[verifier::ext_equal]
pub struct Capture {
    /// Everything heard since the samples were last taken.
    pub samples: Seq<i16>,
    /// Whether the recording was stopped on purpose.
    pub stopped: bool,
    /// Whether the reading has come to its end.
    pub ended: bool,
}

impl Capture {
    /// Nothing heard yet, and neither stopped nor at its end.
    pub open spec fn fresh() -> Capture {
        Capture { samples: Seq::empty(), stopped: false, ended: false }
    }

    /// Whether nothing more is to be read once `read` has come back.
    pub open spec fn ends(self, read: PipeReadView) -> bool {
        ||| self.stopped
        ||| self.ended
        ||| match read {
            PipeReadView::Bytes(bytes) => bytes.len() == 0,
            PipeReadView::Failed(_) => true,
        }
    }

    /// What has to be said about an end of the reading, if anything: nothing of
    /// one that was meant, and nothing twice.
    pub open spec fn end_reason(self, read: PipeReadView) -> Option<Seq<char>> {
        if self.stopped || self.ended {
            None
        } else {
            match read {
                PipeReadView::Bytes(_) => Some(
                    "The microphone closed on its own. Check that the input device still exists."@,
                ),
                PipeReadView::Failed(error) => Some("The microphone stopped: "@ + error),
            }
        }
    }

    /// The samples that `read` brings, which are handed out as one block.
    pub open spec fn block_from(self, read: PipeReadView) -> Seq<i16> {
        match read {
            PipeReadView::Bytes(bytes) => if self.ends(read) {
                Seq::empty()
            } else {
                block_of(bytes)
            },
            PipeReadView::Failed(_) => Seq::empty(),
        }
    }

    /// The capture once `read` has come back.
    pub open spec fn after_read(self, read: PipeReadView) -> Capture {
        Capture {
            samples: self.samples + self.block_from(read),
            ended: self.ends(read),
            ..self
        }
    }

    /// The capture once all of `reads` have come back, one after the other.
    pub open spec fn after_reads(self, reads: Seq<PipeReadView>) -> Capture
        decreases reads.len(),
    {
        if reads.len() == 0 {
            self
        } else {
            self.after_reads(reads.drop_last()).after_read(reads.last())
        }
    }

    /// All the blocks that `reads` bring, joined.
    pub open spec fn blocks_from(self, reads: Seq<PipeReadView>) -> Seq<i16>
        decreases reads.len(),
    {
        if reads.len() == 0 {
            Seq::empty()
        } else {
            self.blocks_from(reads.drop_last()) + self.after_reads(reads.drop_last()).block_from(
                reads.last(),
            )
        }
    }

    /// The capture once everything heard has been taken out of it.
    pub open spec fn taken(self) -> Capture {
        Capture { samples: Seq::empty(), ..self }
    }

    /// The capture once all but the last `keep` samples have been thrown away.
    pub open spec fn kept(self, keep: nat) -> Capture {
        Capture { samples: last_samples(self.samples, keep), ..self }
    }

    /// The capture once it has been stopped on purpose.
    pub open spec fn halted(self) -> Capture {
        Capture { stopped: true, ..self }
    }
}

/// The last `keep` samples, or all of them where there are fewer.
pub open spec fn last_samples(samples: Seq<i16>, keep: nat) -> Seq<i16> {
    if samples.len() > keep {
        samples.skip(samples.len() - keep)
    } else {
        samples
    }
}

/// How long `samples` samples last, as whole seconds and the nanoseconds over.
pub fn clock(samples: usize) -> (r: (u64, u32))
    ensures
        r.0 == samples as int / SAMPLE_RATE as int,
        r.1 == samples as int % SAMPLE_RATE as int * SAMPLE_NANOS,
        r.1 < 1_000_000_000,
{
    let secs: u64 = samples as u64 / SAMPLE_RATE as u64;
    let over: u64 = samples as u64 % SAMPLE_RATE as u64;
    (secs, over as u32 * SAMPLE_NANOS)
}

/// The duration of `secs` seconds and `nanos` nanoseconds.
pub uninterp spec fn std_duration(secs: u64, nanos: u32) -> Duration;

/// Calls `std::time::Duration::new`. Its result is `std_duration` of the two
/// arguments, by name. `nanos` is less than a second here, so nothing carries
/// over into `secs` and the call cannot overflow.
#[verifier::external_body]
fn duration_new(secs: u64, nanos: u32) -> (r: Duration)
    requires
        nanos < 1_000_000_000,
    ensures
        r == std_duration(secs, nanos),
{
    Duration::new(secs, nanos)
}

/// A running capture.
#[derive(Debug)]
pub struct Recorder {
    samples: Vec<i16>,
    stopped: bool,
    ended: bool,
}

impl View for Recorder {
    type V = Capture;

    closed spec fn view(&self) -> Capture {
        Capture { samples: self.samples@, stopped: self.stopped, ended: self.ended }
    }
}

impl Recorder {
    /// Start recording: the command to run, or that it cannot be run.
    ///
    /// `source` is a PipeWire node name, or empty for the system default.
    /// `tool_found` says whether `pw-record` is on the search path. What comes of
    /// running the command goes to [`Recorder::open`].
    pub fn start<E>(source: &str, tool_found: bool) -> (r: Result<Vec<String>, StartError<E>>)
        ensures
            match r {
                Ok(command) => tool_found && texts(command@) == record_command(source@),
                Err(error) => !tool_found && error == StartError::<E>::ToolMissing,
            },
    {
        if !tool_found {
            return Err(StartError::ToolMissing);
        }
        let mut command: Vec<String> = Vec::new();
        command.push(String::from_str("pw-record"));
        command.push(String::from_str("--rate"));
        command.push(String::from_str("16000"));
        command.push(String::from_str("--channels"));
        command.push(String::from_str("1"));
        command.push(String::from_str("--format"));
        command.push(String::from_str("s16"));
        let target = trim(source);
        if !target.is_empty() {
            command.push(String::from_str("--target"));
            command.push(String::from_str(target));
        }
        // `-` is standard output, which is where the samples are read from.
        command.push(String::from_str("-"));
        assert(texts(command@) =~= record_command(source@));
        Ok(command)
    }

    /// A capture with nothing heard yet, if the command could be run.
    pub fn open<E>(spawned: Result<(), E>) -> (r: Result<Recorder, StartError<E>>)
        ensures
            match spawned {
                Ok(_) => r matches Ok(recorder) && recorder@ == Capture::fresh(),
                Err(error) => r matches Err(e) && e == StartError::Spawn(error),
            },
    {
        match spawned {
            Ok(_) => Ok(Recorder { samples: Vec::new(), stopped: false, ended: false }),
            Err(error) => Err(StartError::Spawn(error)),
        }
    }

    /// Whether the recording was stopped on purpose. Nothing is read once it was.
    pub fn is_stopped(&self) -> (r: bool)
        ensures
            r == self@.stopped,
    {
        self.stopped
    }

    /// Take in what came of one read of the pipe.
    ///
    /// Once the reading has ended nothing more is taken in and nothing is said
    /// again.
    pub fn heard(&mut self, read: PipeRead<'_>) -> (r: Heard)
        ensures
            final(self)@ == old(self)@.after_read(read@),
            match r {
                Heard::Block(block) => {
                    &&& !old(self)@.ends(read@)
                    &&& block@ == old(self)@.block_from(read@)
                },
                Heard::Ended(reason) => {
                    &&& old(self)@.ends(read@)
                    &&& match old(self)@.end_reason(read@) {
                        None => reason is None,
                        Some(text) => reason matches Some(said) && said@ == text,
                    }
                },
            },
    {
        if self.stopped || self.ended {
            self.ended = true;
            assert(self@ =~= old(self)@.after_read(read@));
            return Heard::Ended(None);
        }
        match read {
            PipeRead::Failed(error) => {
                self.ended = true;
                assert(self@ =~= old(self)@.after_read(read@));
                Heard::Ended(
                    Some(String::from_str("The microphone stopped: ").concat(error.as_str())),
                )
            },
            PipeRead::Bytes(bytes) => if bytes.len() == 0 {
                self.ended = true;
                assert(self@ =~= old(self)@.after_read(read@));
                Heard::Ended(
                    Some(
                        String::from_str(
                            "The microphone closed on its own. Check that the input device still exists.",
                        ),
                    ),
                )
            } else {
                let block = decode(bytes);
                self.samples.extend_from_slice(block.as_slice());
                assert(self@ =~= old(self)@.after_read(read@));
                Heard::Block(block)
            },
        }
    }

    /// Take everything heard so far and keep recording.
    ///
    /// For an app that holds the microphone open across a whole exchange, this is
    /// how one utterance is lifted out of a stream that does not stop.
    pub fn take(&mut self) -> (r: Vec<i16>)
        ensures
            r@ == old(self)@.samples,
            final(self)@ == old(self)@.taken(),
    {
        let mut all: Vec<i16> = Vec::new();
        std::mem::swap(&mut all, &mut self.samples);
        all
    }

    /// Throw away everything but the last `keep` samples.
    ///
    /// Used at an interruption: what is kept is the moment the person started
    /// talking, enough that their first word survives being what triggered it.
    pub fn keep_last(&mut self, keep: usize)
        ensures
            final(self)@ == old(self)@.kept(keep as nat),
    {
        if self.samples.len() > keep {
            let excess: usize = self.samples.len() - keep;
            let kept = self.samples.split_off(excess);
            self.samples = kept;
        }
    }

    /// How much audio is held, as a duration.
    pub fn duration(&self) -> (r: Duration)
        ensures
            r == std_duration(
                (self@.samples.len() / SAMPLE_RATE as nat) as u64,
                (self@.samples.len() % SAMPLE_RATE as nat * SAMPLE_NANOS as nat) as u32,
            ),
    {
        let (secs, nanos) = clock(self.samples.len());
        duration_new(secs, nanos)
    }

    /// Stop recording on purpose. Nobody is told of the end that follows.
    pub fn stop(&mut self)
        ensures
            final(self)@ == old(self)@.halted(),
    {
        self.stopped = true;
    }

    /// Stop recording on purpose and take everything heard.
    pub fn finish(&mut self) -> (r: Vec<i16>)
        ensures
            r@ == old(self)@.samples,
            final(self)@ == old(self)@.halted().taken(),
    {
        self.stop();
        self.take()
    }
}

/// The two bytes of a sample, the low one first.
pub open spec fn bytes_of(sample: i16) -> (u8, u8) {
    let value = if sample >= 0 {
        sample as int
    } else {
        sample + 0x1_0000
    };
    ((value % 256) as u8, (value / 256) as u8)
}

/// Every sample is what its two bytes stand for.
pub proof fn law_sample_of_its_bytes(sample: i16)
    ensures
        sample_of(bytes_of(sample).0, bytes_of(sample).1) == sample,
{
}

/// No two pairs of bytes stand for the same sample.
pub proof fn law_bytes_of_their_sample(low: u8, high: u8)
    ensures
        bytes_of(sample_of(low, high)) == (low, high),
{
}

/// Where a read ends makes no difference, so long as no sample is cut in half.
pub proof fn law_whole_samples_join(first: Seq<u8>, second: Seq<u8>)
    requires
        first.len() % 2 == 0,
    ensures
        block_of(first + second) == block_of(first) + block_of(second),
{
    let whole = first + second;
    assert forall|i: int| 0 <= i < block_of(whole).len() implies block_of(whole)[i] == (block_of(
        first,
    ) + block_of(second))[i] by {
        if 2 * i < first.len() {
            assert(whole[2 * i + 1] == first[2 * i + 1]);
        } else {
            let j = i - first.len() / 2;
            assert(whole[2 * i] == second[2 * j]);
            assert(whole[2 * i + 1] == second[2 * j + 1]);
        }
    }
    assert(block_of(whole) =~= block_of(first) + block_of(second));
}

/// Whether `read` brought samples, and cut none of them in half.
pub open spec fn brings_whole_samples(read: PipeReadView) -> bool {
    read matches PipeReadView::Bytes(bytes) && bytes.len() > 0 && bytes.len() % 2 == 0
}

/// All the bytes that `reads` brought.
pub open spec fn stream_of(reads: Seq<PipeReadView>) -> Seq<u8>
    decreases reads.len(),
{
    if reads.len() == 0 {
        Seq::empty()
    } else {
        stream_of(reads.drop_last()) + (match reads.last() {
            PipeReadView::Bytes(bytes) => bytes,
            PipeReadView::Failed(_) => Seq::empty(),
        })
    }
}

proof fn lemma_stream_of_whole_samples(reads: Seq<PipeReadView>)
    requires
        forall|i: int| 0 <= i < reads.len() ==> brings_whole_samples(#[trigger] reads[i]),
    ensures
        stream_of(reads).len() % 2 == 0,
    decreases reads.len(),
{
    if reads.len() > 0 {
        assert(brings_whole_samples(reads[reads.len() - 1]));
        lemma_stream_of_whole_samples(reads.drop_last());
    }
}

/// Whatever the reads bring, what is held is what was held before, followed by
/// the blocks that were handed out, joined.
pub proof fn law_what_is_held_is_what_was_handed_out(capture: Capture, reads: Seq<PipeReadView>)
    ensures
        capture.after_reads(reads).samples == capture.samples + capture.blocks_from(reads),
    decreases reads.len(),
{
    if reads.len() > 0 {
        law_what_is_held_is_what_was_handed_out(capture, reads.drop_last());
    }
    assert(capture.after_reads(reads).samples =~= capture.samples + capture.blocks_from(reads));
}

proof fn lemma_reading_goes_on(capture: Capture, reads: Seq<PipeReadView>)
    requires
        !capture.stopped,
        !capture.ended,
        forall|i: int| 0 <= i < reads.len() ==> brings_whole_samples(#[trigger] reads[i]),
    ensures
        !capture.after_reads(reads).stopped,
        !capture.after_reads(reads).ended,
    decreases reads.len(),
{
    if reads.len() > 0 {
        assert(brings_whole_samples(reads[reads.len() - 1]));
        lemma_reading_goes_on(capture, reads.drop_last());
    }
}

/// A running capture holds everything that came down the pipe, in the order in
/// which it came, however many reads it took, so long as no sample is cut in half
/// between two of them. The last of the reads may be of any kind.
pub proof fn law_everything_heard_is_held(capture: Capture, reads: Seq<PipeReadView>)
    requires
        !capture.stopped,
        !capture.ended,
        forall|i: int| 0 <= i < reads.len() - 1 ==> brings_whole_samples(#[trigger] reads[i]),
    ensures
        capture.after_reads(reads).samples == capture.samples + block_of(stream_of(reads)),
    decreases reads.len(),
{
    if reads.len() == 0 {
        assert(capture.samples + block_of(stream_of(reads)) =~= capture.samples);
    } else {
        let before = reads.drop_last();
        law_everything_heard_is_held(capture, before);
        lemma_reading_goes_on(capture, before);
        lemma_stream_of_whole_samples(before);
        let last = match reads.last() {
            PipeReadView::Bytes(bytes) => bytes,
            PipeReadView::Failed(_) => Seq::empty(),
        };
        law_whole_samples_join(stream_of(before), last);
        assert(capture.after_reads(reads).samples =~= capture.samples + block_of(
            stream_of(reads),
        ));
    }
}

proof fn lemma_samples_decide_nothing(a: Capture, b: Capture, reads: Seq<PipeReadView>)
    requires
        a.stopped == b.stopped,
        a.ended == b.ended,
    ensures
        a.after_reads(reads).stopped == b.after_reads(reads).stopped,
        a.after_reads(reads).ended == b.after_reads(reads).ended,
        a.blocks_from(reads) == b.blocks_from(reads),
    decreases reads.len(),
{
    if reads.len() > 0 {
        lemma_samples_decide_nothing(a, b, reads.drop_last());
    }
}

proof fn lemma_reads_in_two_parts(
    capture: Capture,
    first: Seq<PipeReadView>,
    second: Seq<PipeReadView>,
)
    ensures
        capture.after_reads(first + second) == capture.after_reads(first).after_reads(second),
    decreases second.len(),
{
    if second.len() == 0 {
        assert(first + second =~= first);
    } else {
        lemma_reads_in_two_parts(capture, first, second.drop_last());
        assert((first + second).drop_last() =~= first + second.drop_last());
    }
}

/// Taking out what was heard, at whatever moment, loses nothing and repeats
/// nothing: what was taken and what is held afterwards are what would be held
/// had nobody taken anything.
pub proof fn law_take_parts_the_stream(
    capture: Capture,
    first: Seq<PipeReadView>,
    second: Seq<PipeReadView>,
)
    ensures
        capture.after_reads(first + second).samples == capture.after_reads(first).samples
            + capture.after_reads(first).taken().after_reads(second).samples,
{
    let middle = capture.after_reads(first);
    lemma_reads_in_two_parts(capture, first, second);
    law_what_is_held_is_what_was_handed_out(middle, second);
    law_what_is_held_is_what_was_handed_out(middle.taken(), second);
    lemma_samples_decide_nothing(middle, middle.taken(), second);
    assert(middle.taken().samples + middle.taken().blocks_from(second) =~= middle.blocks_from(
        second,
    ));
}

/// Once a recording was stopped on purpose, no read adds anything, whatever it
/// brings, the reading ends, and nobody is told.
pub proof fn law_deliberate_stop_is_silent(
    capture: Capture,
    reads: Seq<PipeReadView>,
    read: PipeReadView,
)
    ensures
        ({
            let then = capture.halted().after_reads(reads);
            &&& then.samples == capture.samples
            &&& then.stopped
            &&& then.ends(read)
            &&& then.end_reason(read) is None
        }),
    decreases reads.len(),
{
    if reads.len() > 0 {
        law_deliberate_stop_is_silent(capture, reads.drop_last(), reads.last());
        assert(capture.halted().after_reads(reads).samples =~= capture.samples);
    }
}

/// A microphone that stops of its own accord, by closing the pipe or by failing
/// a read, is always reported, and what was heard until then is still held.
pub proof fn law_unexpected_end_is_reported(capture: Capture, read: PipeReadView)
    requires
        !capture.stopped,
        !capture.ended,
    ensures
        capture.ends(read) <==> (read matches PipeReadView::Bytes(bytes) ==> bytes.len() == 0),
        capture.ends(read) ==> capture.end_reason(read) is Some,
        capture.ends(read) ==> capture.after_read(read) == (Capture { ended: true, ..capture }),
{
    if capture.ends(read) {
        assert(capture.after_read(read).samples =~= capture.samples);
    }
}

/// Anything that can happen to a capture.
pub enum Event {
    Read(PipeReadView),
    Take,
    KeepLast(nat),
    Stop,
}

impl Capture {
    /// The capture after one event.
    pub open spec fn after_event(self, event: Event) -> Capture {
        match event {
            Event::Read(read) => self.after_read(read),
            Event::Take => self.taken(),
            Event::KeepLast(keep) => self.kept(keep),
            Event::Stop => self.halted(),
        }
    }

    /// The capture after all of `events`, one after the other.
    pub open spec fn after_events(self, events: Seq<Event>) -> Capture
        decreases events.len(),
    {
        if events.len() == 0 {
            self
        } else {
            self.after_events(events.drop_last()).after_event(events.last())
        }
    }

    /// What is said about the end of the reading at one event, if anything.
    pub open spec fn told_at(self, event: Event) -> Seq<Seq<char>> {
        match event {
            Event::Read(read) => if self.ends(read) && self.end_reason(read) is Some {
                seq![self.end_reason(read)->0]
            } else {
                Seq::empty()
            },
            _ => Seq::empty(),
        }
    }

    /// Everything that is said about the end of the reading during `events`.
    pub open spec fn told(self, events: Seq<Event>) -> Seq<Seq<char>>
        decreases events.len(),
    {
        if events.len() == 0 {
            Seq::empty()
        } else {
            self.told(events.drop_last()) + self.after_events(events.drop_last()).told_at(
                events.last(),
            )
        }
    }
}

/// Over a whole recording, whatever is read and whatever is done with it, the end
/// is told at most once, and the reading is over when it is.
pub proof fn law_an_end_is_told_at_most_once(capture: Capture, events: Seq<Event>)
    ensures
        capture.told(events).len() <= 1,
        capture.told(events).len() == 1 ==> capture.after_events(events).ended,
        capture.stopped || capture.ended ==> capture.told(events).len() == 0,
    decreases events.len(),
{
    if events.len() > 0 {
        law_an_end_is_told_at_most_once(capture, events.drop_last());
        lemma_ends_and_stops_last(capture, events.drop_last());
    }
}

proof fn lemma_ends_and_stops_last(capture: Capture, events: Seq<Event>)
    ensures
        capture.stopped ==> capture.after_events(events).stopped,
        capture.ended ==> capture.after_events(events).ended,
    decreases events.len(),
{
    if events.len() > 0 {
        lemma_ends_and_stops_last(capture, events.drop_last());
    }
}

/// Keeping the last `first` samples and then the last `second` keeps as many as
/// the smaller of the two.
pub proof fn law_keep_last_twice(samples: Seq<i16>, first: nat, second: nat)
    ensures
        last_samples(last_samples(samples, first), second) == last_samples(
            samples,
            if first < second {
                first
            } else {
                second
            },
        ),
{
    assert(last_samples(last_samples(samples, first), second) =~= last_samples(
        samples,
        if first < second {
            first
        } else {
            second
        },
    ));
}

/// What is kept is the end of what was held: as much as was asked for, or all
/// there was.
pub proof fn law_keep_last_keeps_the_end(samples: Seq<i16>, keep: nat)
    ensures
        last_samples(samples, keep).is_suffix_of(samples),
        last_samples(samples, keep).len() == (if samples.len() < keep {
            samples.len()
        } else {
            keep
        }),
{
}

/// A count of samples and the time it lasts are the same figure: the seconds and
/// nanoseconds are exact, never rounded.
pub proof fn law_clock_is_exact(samples: nat)
    ensures
        (samples / SAMPLE_RATE as nat * 1_000_000_000 + samples % SAMPLE_RATE as nat
            * SAMPLE_NANOS as nat) * SAMPLE_RATE == samples * 1_000_000_000,
{
}

/// A source that is blank means the system default, exactly as an empty one does.
pub proof fn law_blank_source_is_the_default(source: Seq<char>)
    requires
        forall|i: int| 0 <= i < source.len() ==> crate::text::white_space(#[trigger] source[i]),
    ensures
        record_command(source) == record_command(Seq::empty()),
{
    crate::text::law_trim_removes_only_padding(source);
}

/// The texts of a list are those of its strings, one for one.
pub proof fn law_texts_are_the_strings(list: Seq<String>)
    ensures
        texts(list).len() == list.len(),
        forall|i: int| 0 <= i < list.len() ==> #[trigger] texts(list)[i] == list[i]@,
{
}

/// Every command asks `pw-record` for 16-bit mono at 16 kHz on standard output. A
/// source that is not blank is its target, whole but for the white space around it;
/// `first` and `last` are where that part begins and ends.
pub proof fn law_the_chosen_source_is_recorded(source: Seq<char>, first: int, last: int)
    requires
        0 <= first <= last < source.len(),
        !crate::text::white_space(source[first]),
        !crate::text::white_space(source[last]),
        forall|i: int|
            0 <= i < first || last < i < source.len() ==> crate::text::white_space(
                #[trigger] source[i],
            ),
    ensures
        record_command(source) == seq![
            "pw-record"@,
            "--rate"@,
            "16000"@,
            "--channels"@,
            "1"@,
            "--format"@,
            "s16"@,
            "--target"@,
            source.subrange(first, last + 1),
            "-"@,
        ],
{
    crate::text::law_trim_keeps_first_to_last(source, first, last);
    assert(record_command(source) =~= seq![
        "pw-record"@,
        "--rate"@,
        "16000"@,
        "--channels"@,
        "1"@,
        "--format"@,
        "s16"@,
        "--target"@,
        source.subrange(first, last + 1),
        "-"@,
    ]);
}

/// A blank source names no target, and records in the same format.
pub proof fn law_a_blank_source_has_no_target(source: Seq<char>)
    requires
        forall|i: int| 0 <= i < source.len() ==> crate::text::white_space(#[trigger] source[i]),
    ensures
        record_command(source) == seq![
            "pw-record"@,
            "--rate"@,
            "16000"@,
            "--channels"@,
            "1"@,
            "--format"@,
            "s16"@,
            "-"@,
        ],
{
    crate::text::law_trim_removes_only_padding(source);
    assert(record_command(source) =~= seq![
        "pw-record"@,
        "--rate"@,
        "16000"@,
        "--channels"@,
        "1"@,
        "--format"@,
        "s16"@,
        "-"@,
    ]);
}

/// Two sources are recorded by the same command exactly if they differ in nothing
/// but the white space around them.
pub proof fn law_sources_are_told_apart(a: Seq<char>, b: Seq<char>)
    ensures
        record_command(a) == record_command(b) <==> crate::text::trimmed(a)
            == crate::text::trimmed(b),
{
    let ta = crate::text::trimmed(a);
    let tb = crate::text::trimmed(b);
    if record_command(a) == record_command(b) {
        assert(record_command(a).len() == record_command(b).len());
        if ta.len() > 0 {
            assert(record_command(a)[8] == ta);
            assert(record_command(b)[8] == tb);
        } else {
            assert(ta =~= tb);
        }
    }
}

/// A sample is its low byte and 256 times its high byte, as far as sixteen bits go.
pub proof fn law_a_sample_is_little_endian(low: u8, high: u8)
    ensures
        (sample_of(low, high) - (low + 256 * high)) % 0x1_0000 == 0,
        sample_of(low, high) < 0 <==> high >= 0x80,
{
}

/// A block has a sample for every two bytes, in the order of the bytes, and each is
/// the value of its own two.
pub proof fn law_a_block_is_its_bytes(bytes: Seq<u8>)
    ensures
        block_of(bytes).len() == bytes.len() / 2,
        forall|i: int|
            0 <= i < bytes.len() / 2 ==> (#[trigger] block_of(bytes)[i] - (bytes[2 * i] + 256
                * bytes[2 * i + 1])) % 0x1_0000 == 0,
{
    assert forall|i: int| 0 <= i < bytes.len() / 2 implies (#[trigger] block_of(bytes)[i] - (
    bytes[2 * i] + 256 * bytes[2 * i + 1])) % 0x1_0000 == 0 by {
        law_a_sample_is_little_endian(bytes[2 * i], bytes[2 * i + 1]);
    }
}

/// A read is all the bytes that arrived, or the whole error that came instead.
pub proof fn law_a_read_is_what_arrived(read: PipeRead<'_>)
    ensures
        read matches PipeRead::Bytes(bytes) ==> read@ == PipeReadView::Bytes(bytes@),
        read matches PipeRead::Failed(error) ==> read@ == PipeReadView::Failed(error@),
{
}

/// A running capture that reads some bytes runs on. It holds what it held before,
/// and after that the value of every two bytes, which is also the block handed out.
pub proof fn law_a_read_adds_its_samples(capture: Capture, bytes: Seq<u8>)
    requires
        !capture.stopped,
        !capture.ended,
        bytes.len() > 0,
    ensures
        ({
            let read = PipeReadView::Bytes(bytes);
            let then = capture.after_read(read);
            let held = capture.samples.len() as int;
            &&& !capture.ends(read)
            &&& !then.stopped && !then.ended
            &&& then.samples.len() == held + bytes.len() / 2
            &&& capture.samples.is_prefix_of(then.samples)
            &&& capture.block_from(read) == then.samples.skip(held)
            &&& forall|i: int|
                0 <= i < bytes.len() / 2 ==> (#[trigger] capture.block_from(read)[i] - (bytes[2
                    * i] + 256 * bytes[2 * i + 1])) % 0x1_0000 == 0
        }),
{
    let then = capture.after_read(PipeReadView::Bytes(bytes));
    law_a_block_is_its_bytes(bytes);
    assert(capture.samples =~= then.samples.subrange(0, capture.samples.len() as int));
    assert(block_of(bytes) =~= then.samples.skip(capture.samples.len() as int));
}

/// A running capture whose pipe closes or fails is at its end, and says which: that
/// it closed, or the whole error.
pub proof fn law_the_end_says_why(capture: Capture, error: Seq<char>)
    requires
        !capture.stopped,
        !capture.ended,
    ensures
        capture.ends(PipeReadView::Bytes(Seq::empty())),
        capture.end_reason(PipeReadView::Bytes(Seq::empty())) == Some(
            "The microphone closed on its own. Check that the input device still exists."@,
        ),
        capture.ends(PipeReadView::Failed(error)),
        capture.end_reason(PipeReadView::Failed(error)) == Some(
            "The microphone stopped: "@ + error,
        ),
{
}

/// A capture that was stopped or has come to its end takes nothing more in, hands
/// nothing out and says nothing, whatever is read.
pub proof fn law_nothing_follows_an_end(capture: Capture, read: PipeReadView)
    requires
        capture.stopped || capture.ended,
    ensures
        capture.ends(read),
        capture.end_reason(read) is None,
        capture.block_from(read).len() == 0,
        capture.after_read(read).samples == capture.samples,
        capture.after_read(read).stopped == capture.stopped,
        capture.after_read(read).ended,
{
    assert(capture.after_read(read).samples =~= capture.samples);
}

/// Throwing away all but the last samples leaves the end of what was held, as long
/// as was asked for or as long as there was, and neither stops nor ends anything.
pub proof fn law_what_is_kept_is_the_end(capture: Capture, keep: nat)
    ensures
        capture.kept(keep).samples.is_suffix_of(capture.samples),
        capture.kept(keep).samples.len() <= keep,
        capture.kept(keep).samples.len() == keep || capture.kept(keep).samples == capture.samples,
        capture.kept(keep).stopped == capture.stopped,
        capture.kept(keep).ended == capture.ended,
        forall|i: int|
            0 <= i < capture.kept(keep).samples.len() ==> #[trigger] capture.kept(keep).samples[i]
                == capture.samples[capture.samples.len() - capture.kept(keep).samples.len() + i],
{
}

/// What is heard after throwing away follows what was kept: keeping as much as was
/// heard since, and the `keep` samples from before, is as good as having waited.
pub proof fn law_keeping_can_wait(capture: Capture, keep: nat, read: PipeReadView)
    ensures
        capture.kept(keep).after_read(read) == capture.after_read(read).kept(
            keep + capture.block_from(read).len(),
        ),
{
    let block = capture.block_from(read);
    assert(capture.kept(keep).block_from(read) == block);
    assert(capture.kept(keep).after_read(read).samples =~= capture.after_read(read).kept(
        keep + block.len(),
    ).samples);
}

/// Taking leaves nothing held, stopping leaves everything held, and neither touches
/// anything else.
pub proof fn law_take_and_stop_do_one_thing_each(capture: Capture)
    ensures
        capture.taken().samples.len() == 0,
        capture.taken().stopped == capture.stopped,
        capture.taken().ended == capture.ended,
        capture.halted().samples == capture.samples,
        capture.halted().stopped,
        capture.halted().ended == capture.ended,
{
}

/// A capture that has just been opened holds nothing, and reads.
pub proof fn law_a_fresh_capture_reads(bytes: Seq<u8>)
    ensures
        Capture::fresh().samples.len() == 0,
        !Capture::fresh().stopped,
        !Capture::fresh().ended,
        bytes.len() > 0 ==> !Capture::fresh().ends(PipeReadView::Bytes(bytes)),
{
}

/// A failure to open the microphone is told with the whole of its error, and a
/// missing tool with where to get it.
pub proof fn law_a_refusal_is_told_in_full(error: StartError<String>)
    ensures
        error matches StartError::Spawn(inner) ==> {
            let text = start_error_text(error);
            &&& "The microphone could not be opened: "@.is_prefix_of(text)
            &&& inner@.is_suffix_of(text)
            &&& text.len() == "The microphone could not be opened: "@.len() + inner@.len()
        },
        error is ToolMissing ==> start_error_text(error)
            == "pw-record is not installed. It comes with PipeWire, in the pipewire-bin package on Debian and Ubuntu and in pipewire-utils on Fedora."@,
{
    if let StartError::Spawn(inner) = error {
        let start = "The microphone could not be opened: "@;
        let text = start_error_text(error);
        assert(start =~= text.subrange(0, start.len() as int));
        assert(inner@ =~= text.subrange(start.len() as int, text.len() as int));
    }
}

} // verus!

//! Lockstep aggregation of two frame streams.
//!
//! The aggregator decides, pull by pull, whether a frame pair is scored,
//! whether the run ends, and whether the two streams turned out to differ in
//! length. Pulling frames and scoring a pair happen outside; the aggregator is
//! told what was pulled and is handed each score.
//!
//! The score type `S` is left open: the aggregator never computes with a
//! score, it only keeps them in frame order.

use vstd::prelude::*;
use crate::error::Error;

verus! {

/// Where a comparison run stands.
#[derive(Clone, Copy, Debug, PartialEq, Eq, Structural)]
pub enum Phase {
    /// Frame pairs are still being pulled.
    Running,
    /// Exactly one stream ended while the other went on.
    LengthMismatch,
    /// The run is over: both streams ended, or a length mismatch was handled.
    Finalizing,
}

/// What the driver of a run has to do next.
#[derive(Clone, Copy, Debug, PartialEq, Eq, Structural)]
pub enum Action {
    /// Convert and score the pair that was just pulled, then hand in the score.
    Score,
    /// Warn that the streams differ in length, naming the index of the frame at
    /// which one of them ended, then finish with the pairs scored so far.
    Warn { frame_index: usize },
    /// Finish with the pairs scored so far.
    Finish,
}

/// The result of comparing one frame pair.
#[derive(Debug)]
pub struct ScoreSample<S> {
    /// The score every comparison yields.
    pub primary: S,
    /// The norm value that only some metrics report.
    pub norm: Option<S>,
}

/// What a finished run hands over for the final statistics.
#[derive(Debug)]
pub struct Tally<S> {
    /// The primary score of every scored pair, in frame order.
    pub primaries: Vec<S>,
    /// The norm values that were reported, in frame order; absent when no
    /// pair reported one.
    pub norms: Option<Vec<S>>,
}

/// What a finished run hands over, as sequences.
pub struct TallyView<S> {
    pub primaries: Seq<S>,
    pub norms: Option<Seq<S>>,
}

impl<S> View for Tally<S> {
    type V = TallyView<S>;

    open spec fn view(&self) -> TallyView<S> {
        TallyView {
            primaries: self.primaries@,
            norms: match self.norms {
                Some(norms) => Some(norms@),
                None => None,
            },
        }
    }
}

/// The primary scores of a sequence of samples, in order.
pub open spec fn primaries_of<S>(samples: Seq<ScoreSample<S>>) -> Seq<S> {
    Seq::new(samples.len(), |i: int| samples[i].primary)
}

/// The norm values present in a sequence of samples, in order.
pub open spec fn present_norms<S>(samples: Seq<ScoreSample<S>>) -> Seq<S>
    decreases samples.len(),
{
    if samples.len() == 0 {
        Seq::empty()
    } else {
        match samples.last().norm {
            Some(norm) => present_norms(samples.drop_last()).push(norm),
            None => present_norms(samples.drop_last()),
        }
    }
}

/// Abstract state of a run: its phase and the samples folded so far.
pub struct Progress<S> {
    pub phase: Phase,
    pub samples: Seq<ScoreSample<S>>,
}

impl<S> Progress<S> {
    /// A run before its first pull.
    pub open spec fn start() -> Progress<S> {
        Progress { phase: Phase::Running, samples: Seq::empty() }
    }

    /// Number of frame pairs scored so far.
    pub open spec fn frames(self) -> nat {
        self.samples.len()
    }

    /// State and action after one pull from each stream.
    pub open spec fn pull(self, first_present: bool, second_present: bool) -> (Progress<S>, Action) {
        match self.phase {
            Phase::Running => {
                if first_present && second_present {
                    (self, Action::Score)
                } else if first_present || second_present {
                    (
                        Progress { phase: Phase::LengthMismatch, samples: self.samples },
                        Action::Warn { frame_index: self.samples.len() as usize },
                    )
                } else {
                    (Progress { phase: Phase::Finalizing, samples: self.samples }, Action::Finish)
                }
            },
            _ => (Progress { phase: Phase::Finalizing, samples: self.samples }, Action::Finish),
        }
    }

    /// State after a score was handed in. Only a running aggregation takes it.
    pub open spec fn score(self, sample: ScoreSample<S>) -> Progress<S> {
        match self.phase {
            Phase::Running => Progress { phase: self.phase, samples: self.samples.push(sample) },
            _ => self,
        }
    }

    /// What the run hands over when it is ended here: an error if no pair was
    /// scored, else every primary score in frame order and the norm values
    /// of the pairs that reported one, or no norm values at all if none did.
    pub open spec fn outcome(self) -> Result<TallyView<S>, Error> {
        if self.samples.len() == 0 {
            Err(Error::NoFrames)
        } else {
            Ok(
                TallyView {
                    primaries: primaries_of(self.samples),
                    norms: if present_norms(self.samples).len() == 0 {
                        None
                    } else {
                        Some(present_norms(self.samples))
                    },
                },
            )
        }
    }
}

/// Aggregation state of one comparison run.
pub struct Aggregator<S> {
    phase: Phase,
    samples: Vec<ScoreSample<S>>,
}

impl<S> View for Aggregator<S> {
    type V = Progress<S>;

    closed spec fn view(&self) -> Progress<S> {
        Progress { phase: self.phase, samples: self.samples@ }
    }
}

impl<S> Aggregator<S> {
    /// Starts a run: running, with nothing scored.
    pub fn new() -> (fresh: Aggregator<S>)
        ensures
            fresh@ == Progress::<S>::start(),
    {
        Aggregator { phase: Phase::Running, samples: Vec::new() }
    }

    /// The phase the run is in.
    pub fn phase(&self) -> (phase: Phase)
        ensures
            phase == self@.phase,
    {
        self.phase
    }

    /// Number of frame pairs scored so far.
    pub fn frames(&self) -> (count: usize)
        ensures
            count == self@.frames(),
    {
        self.samples.len()
    }

    /// Takes note of one pull from each stream and says what to do next.
    ///
    /// While running: two frames are to be scored; no frame ends the run; a
    /// single frame ends it with a warning that carries the number of pairs
    /// scored so far, which is the index of the frame that has no partner. Once
    /// the run has ended every further pull is answered with `Finish`.
    pub fn on_pull(&mut self, first_present: bool, second_present: bool) -> (action: Action)
        ensures
            (final(self)@, action) == old(self)@.pull(first_present, second_present),
    {
        match self.phase {
            Phase::Running => {
                if first_present && second_present {
                    Action::Score
                } else if first_present || second_present {
                    self.phase = Phase::LengthMismatch;
                    Action::Warn { frame_index: self.samples.len() }
                } else {
                    self.phase = Phase::Finalizing;
                    Action::Finish
                }
            },
            _ => {
                self.phase = Phase::Finalizing;
                Action::Finish
            },
        }
    }

    /// Folds the score of the pair that was just pulled. A run that has ended
    /// takes no further score.
    pub fn on_score(&mut self, sample: ScoreSample<S>)
        ensures
            final(self)@ == old(self)@.score(sample),
    {
        match self.phase {
            Phase::Running => {
                self.samples.push(sample);
            },
            _ => {},
        }
    }

    /// Ends the run. Fails with `NoFrames` exactly when no pair was scored;
    /// otherwise hands over every primary score, and the norm values of those
    /// pairs that reported one.
    pub fn finish(self) -> (outcome: Result<Tally<S>, Error>)
        ensures
            self@.frames() == 0 <==> outcome is Err,
            outcome matches Err(e) ==> self@.outcome() == Err::<TallyView<S>, Error>(e),
            outcome matches Ok(tally) ==> self@.outcome() == Ok::<TallyView<S>, Error>(tally@),
    {
        if self.samples.len() == 0 {
            return Err(Error::NoFrames);
        }
        let ghost all = self.samples@;
        let mut primaries: Vec<S> = Vec::new();
        let mut norms: Vec<S> = Vec::new();
        for sample in iter: self.samples
            invariant
                iter.seq() == all,
                primaries@ == primaries_of(all.take(iter.index() as int)),
                norms@ == present_norms(all.take(iter.index() as int)),
        {
            proof {
                let done = all.take(iter.index() as int);
                let next = all.take(iter.index() + 1);
                assert(next.drop_last() == done);
                assert(next.last() == sample);
                assert(primaries@.push(sample.primary) == primaries_of(next));
            }
            primaries.push(sample.primary);
            match sample.norm {
                Some(norm) => {
                    norms.push(norm);
                },
                None => {},
            }
        }
        proof {
            assert(all.take(all.len() as int) == all);
        }
        if norms.len() == 0 {
            Ok(Tally { primaries, norms: None })
        } else {
            Ok(Tally { primaries, norms: Some(norms) })
        }
    }
}

/// The smaller of two stream lengths: the number of frame pairs they share.
pub open spec fn common_length(first_len: nat, second_len: nat) -> nat {
    if first_len <= second_len {
        first_len
    } else {
        second_len
    }
}

/// A whole run over two streams of the given lengths, from the state
/// `progress` on. The streams are pulled in lockstep: at every pull a stream
/// still has a frame when fewer pairs were scored than it is long, and the
/// pair is scored with the next of `scores`. The result is the state the run
/// ends in, together with the frame index of the warning, if one was given.
pub open spec fn drive<S>(
    progress: Progress<S>,
    first_len: nat,
    second_len: nat,
    scores: Seq<ScoreSample<S>>,
) -> (Progress<S>, Option<usize>)
    decreases first_len - progress.frames(),
{
    let index = progress.frames();
    let (pulled, action) = progress.pull(index < first_len, index < second_len);
    match action {
        Action::Score => drive(pulled.score(scores[index as int]), first_len, second_len, scores),
        Action::Warn { frame_index } => (pulled, Some(frame_index)),
        Action::Finish => (pulled, None),
    }
}

/// A run that has scored a prefix of the shared frames goes on to score
/// exactly the shared frames.
proof fn lemma_drive_from<S>(
    progress: Progress<S>,
    first_len: nat,
    second_len: nat,
    scores: Seq<ScoreSample<S>>,
)
    requires
        progress.phase == Phase::Running,
        progress.frames() <= common_length(first_len, second_len) <= scores.len(),
        progress.samples == scores.take(progress.frames() as int),
    ensures
        drive(progress, first_len, second_len, scores).0.samples == scores.take(
            common_length(first_len, second_len) as int,
        ),
        drive(progress, first_len, second_len, scores).0.phase == (if first_len == second_len {
            Phase::Finalizing
        } else {
            Phase::LengthMismatch
        }),
        drive(progress, first_len, second_len, scores).1 == (if first_len == second_len {
            None
        } else {
            Some(common_length(first_len, second_len) as usize)
        }),
    decreases first_len - progress.frames(),
{
    let index = progress.frames();
    if index < first_len && index < second_len {
        let next = progress.score(scores[index as int]);
        assert(next.samples == scores.take(index as int + 1));
        lemma_drive_from(next, first_len, second_len, scores);
    }
}

/// Whatever the lengths of the two streams and whatever the scores: a run
/// from the start scores exactly the frame pairs the streams share, in
/// order and each once. It warns exactly when the lengths differ, and the
/// warning names the index of the first frame without a partner, which is the
/// length of the shorter stream. It ends finalizing when the lengths agree and
/// in the length-mismatch phase when they do not.
pub proof fn lemma_run_scores_common_prefix<S>(
    first_len: nat,
    second_len: nat,
    scores: Seq<ScoreSample<S>>,
)
    requires
        common_length(first_len, second_len) <= scores.len(),
    ensures
        drive(Progress::start(), first_len, second_len, scores).0.samples == scores.take(
            common_length(first_len, second_len) as int,
        ),
        drive(Progress::start(), first_len, second_len, scores).0.phase == (if first_len
            == second_len {
            Phase::Finalizing
        } else {
            Phase::LengthMismatch
        }),
        drive(Progress::start(), first_len, second_len, scores).1 == (if first_len == second_len {
            None
        } else {
            Some(common_length(first_len, second_len) as usize)
        }),
{
    assert(Progress::<S>::start().samples == scores.take(0));
    lemma_drive_from(Progress::<S>::start(), first_len, second_len, scores);
}

/// A run over two streams fails for want of frames exactly when one of the
/// streams is empty. Any other run hands over the primary scores of the frame
/// pairs the streams share, in order and each once, and the norm values of
/// those among them that carry one.
pub proof fn lemma_run_outcome<S>(first_len: nat, second_len: nat, scores: Seq<ScoreSample<S>>)
    requires
        common_length(first_len, second_len) <= scores.len(),
    ensures
        common_length(first_len, second_len) == 0 <==> drive(
            Progress::start(),
            first_len,
            second_len,
            scores,
        ).0.outcome() == Err::<TallyView<S>, Error>(Error::NoFrames),
        drive(Progress::start(), first_len, second_len, scores).0.outcome() matches Ok(tally) ==> {
            let shared = scores.take(common_length(first_len, second_len) as int);
            &&& tally.primaries == primaries_of(shared)
            &&& tally.norms is None <==> present_norms(shared).len() == 0
            &&& tally.norms matches Some(norms) ==> norms == present_norms(shared)
        },
{
    lemma_run_scores_common_prefix(first_len, second_len, scores);
}

/// The norm values of a run are taken from those samples that carry one and
/// from no others: appending a sample without a norm leaves them as they
/// are, appending one with a norm appends that norm.
pub proof fn lemma_present_norms_push<S>(samples: Seq<ScoreSample<S>>, sample: ScoreSample<S>)
    ensures
        present_norms(samples.push(sample)) == (match sample.norm {
            Some(norm) => present_norms(samples).push(norm),
            None => present_norms(samples),
        }),
{
    assert(samples.push(sample).drop_last() == samples);
}

/// No norm is reported for a run in which no sample carried one, and only
/// for such a run.
pub proof fn lemma_no_norms_iff_none_present<S>(samples: Seq<ScoreSample<S>>)
    ensures
        present_norms(samples).len() == 0 <==> (forall|i: int|
            0 <= i < samples.len() ==> (#[trigger] samples[i]).norm is None),
        present_norms(samples).len() <= samples.len(),
    decreases samples.len(),
{
    if samples.len() > 0 {
        lemma_no_norms_iff_none_present(samples.drop_last());
        let front = samples.drop_last();
        if present_norms(samples).len() == 0 {
            assert forall|i: int| 0 <= i < samples.len() implies (#[trigger] samples[i]).norm is None by {
                if i < front.len() {
                    assert(front[i].norm is None);
                }
            }
        }
        if forall|i: int| 0 <= i < samples.len() ==> (#[trigger] samples[i]).norm is None {
            assert(samples.last().norm is None);
            assert forall|i: int| 0 <= i < front.len() implies (#[trigger] front[i]).norm is None by {
                assert(samples[i].norm is None);
            }
        }
    }
}

} // verus!

//! The training loop as a sequence of decisions: which example is trained
//! on next, when an epoch is scored, and when training ends.
use vstd::prelude::*;
use crate::error::NetworkError;
use crate::forward::{Forward, ForwardModel};
use crate::network::{Network, NetworkModel};
use crate::scalar::first_max_at;
use crate::series::Series;

verus! {

/// A share of correct predictions: `correct` out of `total` examples.
#[derive(Debug, Clone, Copy, PartialEq, Eq, Structural)]
pub struct Accuracy {
    pub correct: usize,
    pub total: usize,
}

impl Accuracy {
    /// The share is a number from zero to one: something was counted, and
    /// no more of it was correct than there was.
    pub open spec fn wf(self) -> bool {
        0 <= self.correct <= self.total && self.total > 0
    }
}

/// What a training run does next.
#[derive(Debug, Clone, Copy, PartialEq, Eq, Structural)]
pub enum Stage {
    /// Examples are being trained on.
    Fit,
    /// Every example of the epoch was trained on; the epoch awaits its score.
    Score,
    /// Training is over.
    Done,
}

/// How a training run ended.
#[derive(Debug, Clone, Copy, PartialEq, Eq, Structural)]
pub struct TrainingReport {
    /// The number of epochs that were run.
    pub epochs: usize,
    /// The accuracy after the last epoch; nothing correct if none was run.
    pub accuracy: Accuracy,
    /// Whether the target was held for as many epochs in a row as asked.
    pub converged: bool,
}

/// What was found at the end of one epoch.
#[derive(Debug, Clone, Copy, PartialEq, Eq, Structural)]
pub struct EpochReport {
    /// The number of this epoch, counted from one.
    pub epoch: usize,
    /// The accuracy after this epoch.
    pub accuracy: Accuracy,
    /// Whether this epoch is one of those to be reported.
    pub log: bool,
}

/// The next thing to do in a training run.
#[derive(Debug, Clone, Copy, PartialEq, Eq, Structural)]
pub enum Step {
    /// Train on the example at this position.
    Train { example: usize },
    /// Score the epoch: count the examples that are classified correctly.
    Score,
    /// Nothing: training is over, with this result.
    Finish { report: TrainingReport },
}

/// A training run over a fixed number of examples. An epoch trains on every
/// example once, in order, and is then scored. Training ends when the target
/// accuracy was met in `patience` epochs in a row, or when `limit` epochs
/// were run.
#[derive(Debug, Clone, Copy, PartialEq, Eq, Structural)]
pub struct Training {
    /// The number of examples.
    pub examples: usize,
    /// Every how many epochs a report is due.
    pub log_every: usize,
    /// For how many epochs in a row the target must be met.
    pub patience: usize,
    /// The most epochs to run.
    pub limit: usize,
    /// The number of epochs that were scored.
    pub epoch: usize,
    /// The number of epochs in a row, up to the last one, that met the target.
    pub streak: usize,
    /// What is going on.
    pub stage: Stage,
    /// The position of the example to train on next.
    pub cursor: usize,
    /// The number of correct predictions after the last epoch.
    pub correct: usize,
}

/// The class that a finished forward pass rates highest.
pub open spec fn predicted(net: NetworkModel, pass: ForwardModel) -> Seq<char> {
    net.names[first_max_at(pass.outputs())]
}

/// The number of examples among the first `n` whose forward pass rates the
/// example's own class highest.
pub open spec fn hits(
    net: NetworkModel,
    passes: Seq<Forward>,
    data: Seq<Series>,
    n: int,
) -> nat
    decreases n,
{
    if n <= 0 {
        0
    } else {
        let before = hits(net, passes, data, n - 1);
        if predicted(net, passes[n - 1]@) == data[n - 1].answer@ {
            before + 1
        } else {
            before
        }
    }
}

/// Each forward pass is a finished pass over the inputs of the example at
/// the same position.
pub open spec fn all_ready(net: NetworkModel, passes: Seq<Forward>, data: Seq<Series>) -> bool {
    forall|i: int|
        0 <= i < passes.len() ==> {
            &&& (#[trigger] passes[i])@.complete(net)
            &&& passes[i]@.inputs == data[i].inputs@
        }
}

/// Every example has as many inputs as the network.
pub open spec fn all_fit(net: NetworkModel, data: Seq<Series>) -> bool {
    forall|i: int| 0 <= i < data.len() ==> (#[trigger] data[i]).inputs@.len() == net.inputs
}

/// Whether two vectors hold the same encodings.
pub fn same_codes(a: &Vec<u64>, b: &Vec<u64>) -> (same: bool)
    ensures
        same == (a@ == b@),
{
    if a.len() != b.len() {
        return false;
    }
    let mut i: usize = 0;
    while i < a.len()
        invariant
            i <= a.len() == b.len(),
            forall|j: int| 0 <= j < i ==> a@[j] == b@[j],
        decreases a.len() - i,
    {
        if a[i] != b[i] {
            return false;
        }
        i += 1;
    }
    assert(a@ =~= b@);
    true
}

impl Training {
    /// The run is in order.
    pub open spec fn wf(self) -> bool {
        &&& self.examples > 0
        &&& self.log_every > 0
        &&& self.patience > 0
        &&& self.epoch <= self.limit
        &&& self.streak <= self.epoch
        &&& self.correct <= self.examples
        &&& self.cursor < self.examples
        &&& self.stage != Stage::Done ==> self.streak < self.patience && self.epoch < self.limit
        &&& self.stage == Stage::Done ==> self.streak >= self.patience || self.epoch >= self.limit
        &&& self.stage != Stage::Fit ==> self.cursor == 0
    }

    /// A run that has not begun: over `examples` examples, for at most
    /// `limit` epochs.
    pub open spec fn fresh(examples: usize, log_every: usize, patience: usize, limit: usize) -> Training {
        Training {
            examples,
            log_every,
            patience,
            limit,
            epoch: 0,
            streak: 0,
            stage: if limit == 0 {
                Stage::Done
            } else {
                Stage::Fit
            },
            cursor: 0,
            correct: 0,
        }
    }

    /// How the run stands: the epochs run, the last accuracy, and whether
    /// the target was held long enough.
    pub open spec fn summary(self) -> TrainingReport {
        TrainingReport {
            epochs: self.epoch,
            accuracy: Accuracy { correct: self.correct, total: self.examples },
            converged: self.streak >= self.patience,
        }
    }

    /// The next thing to do.
    pub open spec fn step(self) -> Step {
        match self.stage {
            Stage::Fit => Step::Train { example: self.cursor },
            Stage::Score => Step::Score,
            Stage::Done => Step::Finish { report: self.summary() },
        }
    }

    /// The run after the example in turn was trained on.
    pub open spec fn after_trained(self) -> Training {
        if self.cursor + 1 < self.examples {
            Training { cursor: (self.cursor + 1) as usize, ..self }
        } else {
            Training { cursor: 0, stage: Stage::Score, ..self }
        }
    }

    /// The run after an epoch was scored with `correct` correct predictions,
    /// which met the target or did not.
    pub open spec fn after_scored(self, correct: usize, met: bool) -> Training {
        let epoch = (self.epoch + 1) as usize;
        let streak = if met {
            (self.streak + 1) as usize
        } else {
            0
        };
        Training {
            epoch,
            streak,
            correct,
            stage: if streak >= self.patience || epoch >= self.limit {
                Stage::Done
            } else {
                Stage::Fit
            },
            ..self
        }
    }

    /// Whether the run is in order, whoever set its fields.
    pub fn is_valid(&self) -> (ok: bool)
        ensures
            ok == self.wf(),
    {
        let over: bool = match self.stage {
            Stage::Done => true,
            _ => false,
        };
        let fitting: bool = match self.stage {
            Stage::Fit => true,
            _ => false,
        };
        self.examples > 0 && self.log_every > 0 && self.patience > 0 && self.epoch <= self.limit
            && self.streak <= self.epoch && self.correct <= self.examples && self.cursor
            < self.examples && (over || (self.streak < self.patience && self.epoch < self.limit))
            && (!over || self.streak >= self.patience || self.epoch >= self.limit) && (fitting
            || self.cursor == 0)
    }

    /// The next thing to do.
    pub fn next(&self) -> (step: Step)
        requires
            self.wf(),
        ensures
            step == self.step(),
            step matches Step::Train { example } ==> example < self.examples,
            step matches Step::Finish { report } ==> report.accuracy.wf(),
    {
        match self.stage {
            Stage::Fit => Step::Train { example: self.cursor },
            Stage::Score => Step::Score,
            Stage::Done => Step::Finish {
                report: TrainingReport {
                    epochs: self.epoch,
                    accuracy: Accuracy { correct: self.correct, total: self.examples },
                    converged: self.streak >= self.patience,
                },
            },
        }
    }

    /// Records that the example in turn was trained on. Fails with
    /// `InvalidState` when no example is in turn, and the run stays as it
    /// was.
    pub fn trained(&mut self) -> (done: Result<(), NetworkError>)
        requires
            old(self).wf(),
        ensures
            final(self).wf(),
            old(self).stage != Stage::Fit ==> done == Err::<(), NetworkError>(
                NetworkError::InvalidState,
            ) && *final(self) == *old(self),
            old(self).stage == Stage::Fit ==> done is Ok && *final(self) == old(
                self,
            ).after_trained(),
    {
        match self.stage {
            Stage::Fit => {
                if self.cursor + 1 < self.examples {
                    self.cursor = self.cursor + 1;
                } else {
                    self.cursor = 0;
                    self.stage = Stage::Score;
                }
                Ok(())
            },
            _ => Err(NetworkError::InvalidState),
        }
    }

    /// Records the score of the epoch that was just trained: `correct`
    /// examples are classified correctly, and `met` says whether that share
    /// reaches the target accuracy. Fails with `InvalidState` when no epoch
    /// awaits its score or `correct` is more than there are examples, and
    /// the run stays as it was.
    pub fn scored(&mut self, correct: usize, met: bool) -> (done: Result<EpochReport, NetworkError>)
        requires
            old(self).wf(),
        ensures
            final(self).wf(),
            old(self).stage != Stage::Score || correct > old(self).examples ==> done == Err::<
                EpochReport,
                NetworkError,
            >(NetworkError::InvalidState) && *final(self) == *old(self),
            old(self).stage == Stage::Score && correct <= old(self).examples ==> {
                &&& *final(self) == old(self).after_scored(correct, met)
                &&& done == Ok::<EpochReport, NetworkError>(
                    EpochReport {
                        epoch: final(self).epoch,
                        accuracy: Accuracy { correct, total: old(self).examples },
                        log: final(self).epoch % old(self).log_every == 0,
                    },
                )
            },
            done matches Ok(report) ==> report.accuracy.wf(),
    {
        match self.stage {
            Stage::Score => {
                if correct > self.examples {
                    return Err(NetworkError::InvalidState);
                }
                self.epoch = self.epoch + 1;
                self.streak = if met {
                    self.streak + 1
                } else {
                    0
                };
                self.correct = correct;
                self.stage = if self.streak >= self.patience || self.epoch >= self.limit {
                    Stage::Done
                } else {
                    Stage::Fit
                };
                Ok(
                    EpochReport {
                        epoch: self.epoch,
                        accuracy: Accuracy { correct, total: self.examples },
                        log: self.epoch % self.log_every == 0,
                    },
                )
            },
            _ => Err(NetworkError::InvalidState),
        }
    }
}

impl Network {
    /// Starts a training run over `data`, to be reported every `log_every`
    /// epochs, to end when the target accuracy was met in `patience` epochs
    /// in a row or, if `limit` is given, after that many epochs. Fails with
    /// `EmptyTrainingSet` when there is no example, else with
    /// `DimensionMismatch` when some example has more or fewer inputs than
    /// the network.
    pub fn train(
        &self,
        data: &Vec<Series>,
        log_every: usize,
        patience: usize,
        limit: Option<usize>,
    ) -> (run: Result<Training, NetworkError>)
        requires
            log_every > 0,
            patience > 0,
        ensures
            data@.len() == 0 ==> run == Err::<Training, NetworkError>(
                NetworkError::EmptyTrainingSet,
            ),
            data@.len() > 0 && !all_fit(self@, data@) ==> run == Err::<Training, NetworkError>(
                NetworkError::DimensionMismatch,
            ),
            data@.len() > 0 && all_fit(self@, data@) ==> run == Ok::<Training, NetworkError>(
                Training::fresh(
                    data@.len() as usize,
                    log_every,
                    patience,
                    match limit {
                        Some(most) => most,
                        None => usize::MAX,
                    },
                ),
            ),
            run matches Ok(fresh) ==> fresh.wf(),
    {
        if data.len() == 0 {
            return Err(NetworkError::EmptyTrainingSet);
        }
        let mut i: usize = 0;
        while i < data.len()
            invariant
                i <= data.len(),
                forall|j: int| 0 <= j < i ==> (#[trigger] data@[j]).inputs@.len() == self@.inputs,
            decreases data.len() - i,
        {
            if data[i].inputs.len() != self.inputs {
                return Err(NetworkError::DimensionMismatch);
            }
            i += 1;
        }
        let most: usize = match limit {
            Some(most) => most,
            None => usize::MAX,
        };
        Ok(
            Training {
                examples: data.len(),
                log_every,
                patience,
                limit: most,
                epoch: 0,
                streak: 0,
                stage: if most == 0 {
                    Stage::Done
                } else {
                    Stage::Fit
                },
                cursor: 0,
                correct: 0,
            },
        )
    }

    /// The accuracy of the network on `data`, given for each example a
    /// finished forward pass over its inputs: the share of the examples for
    /// which the class rated highest is the example's own. Fails with
    /// `EmptyTrainingSet` when there is no example, else with
    /// `DimensionMismatch` when there are more or fewer passes than
    /// examples, else with `InvalidState` when some pass is unfinished or
    /// ran over other inputs than its example's.
    pub fn err_percentage(&self, passes: &Vec<Forward>, data: &Vec<Series>) -> (share: Result<
        Accuracy,
        NetworkError,
    >)
        requires
            self.wf(),
            forall|i: int| 0 <= i < passes@.len() ==> (#[trigger] passes@[i])@.wf(self@),
        ensures
            data@.len() == 0 ==> share == Err::<Accuracy, NetworkError>(
                NetworkError::EmptyTrainingSet,
            ),
            data@.len() > 0 && passes@.len() != data@.len() ==> share == Err::<
                Accuracy,
                NetworkError,
            >(NetworkError::DimensionMismatch),
            data@.len() > 0 && passes@.len() == data@.len() && !all_ready(
                self@,
                passes@,
                data@,
            ) ==> share == Err::<Accuracy, NetworkError>(NetworkError::InvalidState),
            data@.len() > 0 && passes@.len() == data@.len() && all_ready(self@, passes@, data@)
                ==> share == Ok::<Accuracy, NetworkError>(
                Accuracy {
                    correct: hits(self@, passes@, data@, data@.len() as int) as usize,
                    total: data@.len() as usize,
                },
            ),
            share matches Ok(accuracy) ==> accuracy.wf(),
    {
        if data.len() == 0 {
            return Err(NetworkError::EmptyTrainingSet);
        }
        if passes.len() != data.len() {
            return Err(NetworkError::DimensionMismatch);
        }
        let mut correct: usize = 0;
        let mut i: usize = 0;
        while i < data.len()
            invariant
                i <= data.len() == passes.len(),
                self.wf(),
                forall|j: int| 0 <= j < passes@.len() ==> (#[trigger] passes@[j])@.wf(self@),
                forall|j: int|
                    0 <= j < i ==> {
                        &&& (#[trigger] passes@[j])@.complete(self@)
                        &&& passes@[j]@.inputs == data@[j].inputs@
                    },
                correct == hits(self@, passes@, data@, i as int),
                correct <= i,
            decreases data.len() - i,
        {
            let pass = &passes[i];
            if !same_codes(&pass.inputs, &data[i].inputs) {
                return Err(NetworkError::InvalidState);
            }
            match self.run(pass) {
                Ok(name) => {
                    if *name == data[i].answer {
                        correct = correct + 1;
                    }
                },
                Err(_) => {
                    return Err(NetworkError::InvalidState);
                },
            }
            i += 1;
        }
        Ok(Accuracy { correct, total: data.len() })
    }
}

} // verus!

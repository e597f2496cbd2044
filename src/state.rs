use vstd::prelude::*;
use vstd::string::StringExecFns;

use crate::error::Error;
use crate::naming::{checkpoint_file_name, checkpoint_path};
use crate::schedule::{advanced, advanced_through, fresh_task, lemma_count_tracks_firings, RecurringTask};

verus! {

/// The mutable state of a simulation that a checkpoint holds.
///
/// `time` and each entry of `primitive` are bit patterns of `f64` values.
#[derive(Clone, Debug)]
pub struct State {
    pub setup_name: String,
    pub parameters: String,
    pub primitive: Vec<u64>,
    pub time: u64,
    pub iteration: u64,
    pub checkpoint: RecurringTask,
}

/// The parameter history `parameters` with a later run's parameters
/// appended after a `:`.
pub open spec fn chained(parameters: Seq<char>, new_parameters: Seq<char>) -> Seq<char> {
    parameters + seq![':'] + new_parameters
}

/// `a` and `b` agree on every field but the parameter history.
pub open spec fn same_but_parameters(a: State, b: State) -> bool {
    &&& a.setup_name@ == b.setup_name@
    &&& a.primitive@ == b.primitive@
    &&& a.time == b.time
    &&& a.iteration == b.iteration
    &&& a.checkpoint == b.checkpoint
}

impl State {
    /// The state of a new run, whose checkpoint tracker has never fired.
    pub fn new(
        setup_name: String,
        parameters: String,
        primitive: Vec<u64>,
        time: u64,
        iteration: u64,
    ) -> (r: State)
        ensures
            r.setup_name@ == setup_name@,
            r.parameters@ == parameters@,
            r.primitive@ == primitive@,
            r.time == time,
            r.iteration == iteration,
            r.checkpoint == fresh_task(),
    {
        State { setup_name, parameters, primitive, time, iteration, checkpoint: RecurringTask::new() }
    }

    /// Resumes from what a checkpoint file decoded to. A state has its
    /// parameter history extended by `new_parameters` and every other field
    /// kept; a decoding failure becomes `InvalidCheckpoint` with its message.
    pub fn from_checkpoint(decoded: Result<State, String>, new_parameters: &str) -> (r: Result<
        State,
        Error,
    >)
        ensures
            decoded is Ok <==> r is Ok,
            decoded is Ok ==> same_but_parameters(r->Ok_0, decoded->Ok_0)
                && r->Ok_0.parameters@ == chained(decoded->Ok_0.parameters@, new_parameters@),
            decoded is Err ==> (r matches Err(Error::InvalidCheckpoint(m)) && m@ == decoded->Err_0@),
    {
        match decoded {
            Ok(state) => {
                let mut state = state;
                state.parameters.append(":");
                state.parameters.append(new_parameters);
                proof {
                    reveal_strlit(":");
                }
                Ok(state)
            },
            Err(message) => Err(Error::InvalidCheckpoint(message)),
        }
    }

    /// Fires the checkpoint tracker, whose action is next due at `next_time`,
    /// and returns the name under `outdir` of the file that the checkpoint
    /// goes to. It is numbered by the count before firing, so the first
    /// checkpoint of a fresh tracker is number zero. The state, to be encoded
    /// into that file next, then holds the tracker after firing.
    pub fn write_checkpoint(&mut self, next_time: u64, outdir: &str) -> (file_name: String)
        requires
            old(self).checkpoint.number < u64::MAX,
        ensures
            final(self).checkpoint == advanced(old(self).checkpoint, next_time),
            final(self).parameters@ == old(self).parameters@,
            final(self).setup_name@ == old(self).setup_name@,
            final(self).primitive@ == old(self).primitive@,
            final(self).time == old(self).time,
            final(self).iteration == old(self).iteration,
            file_name@ == checkpoint_path(outdir@, old(self).checkpoint.number as nat),
    {
        self.checkpoint.next(next_time);
        checkpoint_file_name(outdir, self.checkpoint.number - 1)
    }
}

/// Checkpoints written from a fresh tracker are numbered from zero: the one
/// written after `earlier.len()` others, whose due times were `earlier`, is
/// named with number `earlier.len()`, so the k-th write names number k - 1.
pub proof fn lemma_sequence_naming(outdir: Seq<char>, earlier: Seq<u64>)
    requires
        earlier.len() < u64::MAX,
    ensures
        advanced_through(fresh_task(), earlier).number < u64::MAX,
        checkpoint_path(outdir, advanced_through(fresh_task(), earlier).number as nat)
            == checkpoint_path(outdir, earlier.len()),
{
    lemma_count_tracks_firings(earlier);
}

} // verus!

//! The dispatcher: given one input and the ordered list of configured
//! command strings, it produces one independent worker job per command, each
//! carrying its own copy of the input, and returns without waiting on any of
//! them. It has no failure mode of its own: every command-level failure is
//! captured inside the worker and reported as a result.

use crate::command::CommandSpec;
use crate::worker::{worker_text, ProcessOutcome};
use vstd::prelude::*;

verus! {

/// Everything one worker needs: the spec to run and this worker's own copy
/// of the input to feed it.
pub struct WorkerJob {
    pub input: String,
    pub spec: CommandSpec,
}

/// Builds one job per configured command, in configured order, each with its
/// own copy of `input` and a well-formed spec parsed from its command string.
pub fn make_jobs(input: &str, commands: &Vec<String>) -> (jobs: Vec<WorkerJob>)
    ensures
        jobs@.len() == commands@.len(),
        forall|i: int|
            0 <= i < jobs@.len() ==> {
                &&& (#[trigger] jobs@[i]).spec.wf()
                &&& jobs@[i].spec.raw@ == commands@[i]@
                &&& jobs@[i].input@ == input@
            },
{
    let n = commands.len();
    let mut jobs: Vec<WorkerJob> = Vec::new();
    let mut i: usize = 0;
    while i < n
        invariant
            n == commands@.len(),
            i <= n,
            jobs@.len() == i,
            forall|k: int|
                0 <= k < i as int ==> {
                    &&& (#[trigger] jobs@[k]).spec.wf()
                    &&& jobs@[k].spec.raw@ == commands@[k]@
                    &&& jobs@[k].input@ == input@
                },
        decreases n - i,
    {
        let spec = CommandSpec::parse(commands[i].as_str());
        jobs.push(WorkerJob { input: input.to_owned(), spec });
        i = i + 1;
    }
    jobs
}

/// The one result a worker delivers, as a (name, text) pair: total in the
/// spec and the process outcome, so every worker delivers exactly one
/// result, success or failure.
pub open spec fn delivery(spec: CommandSpec, o: ProcessOutcome) -> (Seq<char>, Seq<char>) {
    (spec.raw@, worker_text(spec, o))
}

/// The deliveries of one whole request: one per configured command, the
/// i-th coming from the i-th command's worker and its process's outcome.
pub open spec fn deliveries(specs: Seq<CommandSpec>, outcomes: Seq<ProcessOutcome>) -> Seq<
    (Seq<char>, Seq<char>),
> {
    Seq::new(specs.len(), |i: int| delivery(specs[i], outcomes[i]))
}

/// Exactly one result per command. However each of the N processes of one
/// request turns out, the request delivers exactly N results; the i-th
/// carries the i-th configured command string as its name; and so the set
/// of delivered result names equals the set of configured command strings.
pub proof fn lemma_one_delivery_per_command(
    commands: Seq<Seq<char>>,
    specs: Seq<CommandSpec>,
    outcomes: Seq<ProcessOutcome>,
)
    requires
        specs.len() == commands.len(),
        outcomes.len() == commands.len(),
        forall|i: int| 0 <= i < specs.len() ==> (#[trigger] specs[i]).raw@ == commands[i],
    ensures
        deliveries(specs, outcomes).len() == commands.len(),
        forall|i: int|
            0 <= i < commands.len() ==> (#[trigger] deliveries(specs, outcomes)[i]).0
                == commands[i],
        deliveries(specs, outcomes).map_values(|d: (Seq<char>, Seq<char>)| d.0).to_set()
            == commands.to_set(),
{
    let names = deliveries(specs, outcomes).map_values(|d: (Seq<char>, Seq<char>)| d.0);
    assert(names =~= commands);
}

} // verus!

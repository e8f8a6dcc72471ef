mod boundary;
mod runtime;
mod seeds;
mod stats;
mod tournament;

use vstd::prelude::*;

verus! {

pub use crate::boundary::utf8_lossy_of;
pub use crate::runtime::BoundaryOp;
pub use crate::runtime::EntryPoint;
pub use crate::runtime::RunError;
pub use crate::runtime::SetupError;
pub use crate::runtime::SnakeRuntime;
pub use crate::runtime::decode_winner;
pub use crate::runtime::appended;
pub use crate::runtime::decode_winner_spec;
pub use crate::runtime::game_transcript;
pub use crate::runtime::invoked_with;
pub use crate::runtime::ok_extraction;
pub use crate::runtime::reason_bytes_of;
pub use crate::runtime::lemma_transcript_protocol;
pub use crate::runtime::reason_from_bytes;
pub use crate::runtime::well_formed_attempt;
pub use crate::seeds::ConfigError;
pub use crate::seeds::SeedCursor;
pub use crate::seeds::lemma_claims_partition_range;
pub use crate::stats::AggregateState;
pub use crate::stats::bumped_entry;
pub use crate::stats::counts_bounded;
pub use crate::stats::counts_sum;
pub use crate::stats::entry_wf;
pub use crate::stats::fresh_entry;
pub use crate::stats::has_reason;
pub use crate::stats::reasons_wf;
pub use crate::stats::recorded;
pub use crate::stats::ReasonEntry;
pub use crate::stats::lemma_examples_bounded_and_distinct;
pub use crate::stats::lemma_sorted_distinct_strictly_increasing;
pub use crate::stats::lemma_total_is_sum_of_wins;
pub use crate::tournament::run_tournament;
pub use crate::tournament::tournament_trace;

/// Outcome of one finished game: which side won, or a tie.
///
/// Structural-validation failures of a competitor module are not winners;
/// they are reported as errors and never appear as a `Winner` value.
#[derive(Copy, Clone, Eq, PartialEq, Structural, Debug, Hash)]
pub enum Winner {
    Red,
    Blue,
    Tie,
}

/// The structured result of one game, extracted from the virtual machine's
/// opaque result handle and owned by the calling thread from then on.
#[derive(Debug)]
pub struct GameResult {
    pub winner: Winner,
    pub tick: u32,
    pub cycle: u32,
    pub lose_reason: String,
}

} // verus!

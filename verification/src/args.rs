//! The argument types of the command surface. The surface itself (parsing,
//! help text, printing) lives outside the library; these types carry the
//! validated choices into it.

use vstd::prelude::*;

verus! {

/// The parsed command line: which command to run, if any.
#[derive(Debug, Clone)]
pub struct PokerArgs {
    pub command: Option<CommandsEnum>,
}

/// The commands the statistics demo offers.
#[derive(Debug, Clone)]
pub enum CommandsEnum {
    /// Draw a random hand of the given size, display it, and score it.
    DrawHand { hands_size: usize },
    /// Compute statistics on a 5/7 card hand with the given sample count.
    Statistics(StatisticsSampleParameters),
    /// Print the sorted deck.
    SortedDeck,
}

/// Parameters of one statistics sampling run.
#[derive(Debug, Clone)]
pub struct StatisticsSampleParameters {
    pub hands_number: usize,
    pub number_of_samples: u32,
    pub number_of_threads: u32,
}

} // verus!

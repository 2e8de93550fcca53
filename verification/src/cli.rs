//! The command surface: the argument records of the four subcommands and
//! the optimizer selector.  Argument parsing itself lives outside the
//! library; these are the plain values it hands over.

use vstd::prelude::*;

verus! {

/// The whole command line: one subcommand.
#[derive(Debug, PartialEq, Eq, Structural)]
pub struct SuperrArgs {
    pub nested: Subcommands,
}

/// The four commands the program offers.
#[derive(Debug, PartialEq, Eq, Structural)]
pub enum Subcommands {
    Run(RunSubcommand),
    Gen(GenSubcommand),
    Optimize(OptimizeSubcommand),
    Bench(BenchSubcommand),
}

/// `run`: execute a program read from a file or standard input.
#[derive(Debug, PartialEq, Eq, Structural)]
pub struct RunSubcommand {}

/// `gen`: emit a random program of the given size.
#[derive(Debug, PartialEq, Eq, Structural)]
pub struct GenSubcommand {
    pub instructions: u32,
}

/// `optimize`: search for a shorter equivalent of the input program.
#[derive(Debug, PartialEq, Eq, Structural)]
pub struct OptimizeSubcommand {
    pub max_instructions: usize,
    pub max_num: u8,
    pub optimizer: OptimizerType,
}

/// `bench`: measure raw machine throughput on random instruction batches.
#[derive(Debug, PartialEq, Eq, Structural)]
pub struct BenchSubcommand {
    pub buffer: usize,
}

/// The strategy selector of the `optimize` command.
#[derive(Debug, Clone, Copy, PartialEq, Eq, Structural)]
pub enum OptimizerType {
    RandomSearch,
    Exhaustive,
    Diffing,
    Genetic,
}

/// The strategy a selector word names, if any.
pub open spec fn spec_optimizer_of(s: Seq<char>) -> Option<OptimizerType> {
    if s == "random"@ || s == "random-search"@ || s == "random_search"@ {
        Some(OptimizerType::RandomSearch)
    } else if s == "exhaustive"@ {
        Some(OptimizerType::Exhaustive)
    } else if s == "diffing"@ {
        Some(OptimizerType::Diffing)
    } else if s == "genetic"@ {
        Some(OptimizerType::Genetic)
    } else {
        None
    }
}

impl OptimizerType {
    /// Reads a selector word from the command line; an unknown word is
    /// rejected with a message.
    pub fn from_arg_value(value: &str) -> (r: Result<OptimizerType, String>)
        ensures
            match spec_optimizer_of(value@) {
                Some(k) => r == Ok::<OptimizerType, String>(k),
                None => r matches Err(m) && m@ == "invalid optimizer"@,
            },
    {
        if crate::text::str_eq(value, "random") || crate::text::str_eq(value, "random-search")
            || crate::text::str_eq(value, "random_search") {
            Ok(OptimizerType::RandomSearch)
        } else if crate::text::str_eq(value, "exhaustive") {
            Ok(OptimizerType::Exhaustive)
        } else if crate::text::str_eq(value, "diffing") {
            Ok(OptimizerType::Diffing)
        } else if crate::text::str_eq(value, "genetic") {
            Ok(OptimizerType::Genetic)
        } else {
            Err("invalid optimizer".to_owned())
        }
    }
}

} // verus!

//! The command line of the dataset program.
use vstd::prelude::*;
use crate::text::{parse_unsigned, parse_unsigned_bounded, push_str};

verus! {

/// How many words the command line has, the program's name included.
pub const NUM_ARGS: usize = 4;

/// Where each argument stands on the command line.
#[derive(Debug, Clone, Copy, PartialEq, Eq, Structural)]
pub enum ArgsIndex {
    DatasetPath,
    NumThreads,
    OutputPath,
}

impl ArgsIndex {
    pub open spec fn spec_position(&self) -> nat {
        match self {
            ArgsIndex::DatasetPath => 1,
            ArgsIndex::NumThreads => 2,
            ArgsIndex::OutputPath => 3,
        }
    }

    /// The position of the argument.
    pub fn position(&self) -> (r: usize)
        ensures
            r == self.spec_position(),
    {
        match self {
            ArgsIndex::DatasetPath => 1,
            ArgsIndex::NumThreads => 2,
            ArgsIndex::OutputPath => 3,
        }
    }
}

/// The error for a command line, if it has one: the wrong number of words,
/// then a dataset that is not a file, then a thread count that does not read
/// as a `usize`.
pub open spec fn args_error(args: Seq<Seq<char>>, dataset_is_file: bool) -> Option<Seq<char>> {
    if args.len() != NUM_ARGS {
        Some("Usar: cargo run <ruta dataset> <cantidad de threads> <nombre de salida>"@)
    } else if !dataset_is_file {
        Some("Archivo de dataset no encontrado"@)
    } else if parse_unsigned(args[2], usize::MAX as nat) is None {
        Some("Cantidad de threads inválida"@)
    } else {
        None
    }
}

/// Checks the command line `args`; `dataset_is_file` tells whether the
/// dataset path that it names is a file.
pub fn verify_args(args: &Vec<String>, dataset_is_file: bool) -> (r: Result<(), String>)
    ensures
        r is Ok <==> args_error(args@.map_values(|a: String| a@), dataset_is_file) is None,
        r matches Err(e) ==> Some(e@) == args_error(args@.map_values(|a: String| a@), dataset_is_file),
{
    let ghost views = args@.map_values(|a: String| a@);
    let mut e = String::new();
    if args.len() != NUM_ARGS {
        push_str(&mut e, "Usar: cargo run <ruta dataset> <cantidad de threads> <nombre de salida>");
        return Err(e);
    }
    if !dataset_is_file {
        push_str(&mut e, "Archivo de dataset no encontrado");
        return Err(e);
    }
    let threads = args[ArgsIndex::NumThreads.position()].as_str();
    assert(views[2] == threads@);
    if parse_unsigned_bounded(threads, usize::MAX as u64).is_none() {
        push_str(&mut e, "Cantidad de threads inválida");
        return Err(e);
    }
    Ok(())
}

/// The number of threads that a checked command line asks for.
pub fn num_threads(args: &Vec<String>) -> (r: Option<usize>)
    ensures
        args.len() == NUM_ARGS ==> r == match parse_unsigned(args@[2]@, usize::MAX as nat) {
            Some(n) => Some(n as usize),
            None => None::<usize>,
        },
        args.len() != NUM_ARGS ==> r is None,
{
    if args.len() != NUM_ARGS {
        return None;
    }
    match parse_unsigned_bounded(args[ArgsIndex::NumThreads.position()].as_str(), usize::MAX as u64) {
        Some(n) => Some(n as usize),
        None => None,
    }
}

} // verus!

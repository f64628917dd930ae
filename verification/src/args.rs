//! What the command line selects, and what is written out for it.

use vstd::prelude::*;
use std::path::PathBuf;
use crate::dispatch::Bucket;
use crate::text::joined;
use crate::translate::{file_name, separator, TheResult};

verus! {

/// `std::path::PathBuf`: a path of the file system, carried through as it is.
#[verifier::external_type_specification]
#[verifier::external_body]
pub struct ExPathBuf(PathBuf);

/// The arguments of the program that writes every bucket to a directory.
#[derive(Debug)]
pub struct BuildRsNixArgs {
    /// The file that holds the output of the build script.
    pub script_output: PathBuf,
    /// The directory that the files are written to.
    pub out_dir: PathBuf,
}

/// What the program is asked to do with a translation.
#[derive(Clone, Copy, Debug, PartialEq, Eq, Structural, Hash)]
pub enum Command {
    /// Print the compiler arguments.
    RustcArguments,
    /// Print the propagated arguments.
    RustcPropagatedArguments,
    /// Print the environment assignments.
    EnvironmentVariables,
    /// Write each bucket to a file of its own.
    WriteResults,
}

/// The bucket that `command` prints, if it prints one.
pub open spec fn printed_bucket(command: Command) -> Option<Bucket> {
    match command {
        Command::RustcArguments => Some(Bucket::RustcArguments),
        Command::RustcPropagatedArguments => Some(Bucket::RustcPropagatedArguments),
        Command::EnvironmentVariables => Some(Bucket::EnvironmentVariables),
        Command::WriteResults => None,
    }
}

impl Command {
    /// The bucket that this command prints, if it prints one.
    pub fn bucket(&self) -> (b: Option<Bucket>)
        ensures
            b == printed_bucket(*self),
    {
        match self {
            Command::RustcArguments => Some(Bucket::RustcArguments),
            Command::RustcPropagatedArguments => Some(Bucket::RustcPropagatedArguments),
            Command::EnvironmentVariables => Some(Bucket::EnvironmentVariables),
            Command::WriteResults => None,
        }
    }
}

/// The text that `command` prints of `result`: the bucket it names, joined
/// with that bucket's separator. A command that writes files prints none.
pub fn printed(command: Command, result: &TheResult) -> (out: Option<String>)
    ensures
        match printed_bucket(command) {
            Some(b) => out is Some && out->Some_0@ == joined(result@.bucket(b), separator(b)),
            None => out is None,
        },
{
    match command.bucket() {
        Some(b) => Some(result.joined(b)),
        None => None,
    }
}

/// A file to write: its name inside the output directory, and its content.
#[derive(Clone, Debug, PartialEq, Eq)]
pub struct Artifact {
    pub name: String,
    pub content: String,
}

/// The files that hold `result`: one for each bucket, compiler arguments
/// first, then propagated arguments, then environment assignments.
pub fn artifacts(result: &TheResult) -> (files: Vec<Artifact>)
    ensures
        files.len() == 3,
        forall|i: int|
            0 <= i < 3 ==> {
                let b = bucket_at(i);
                &&& (#[trigger] files[i]).name@ == file_name(b)
                &&& files[i].content@ == joined(result@.bucket(b), separator(b))
            },
{
    let mut files: Vec<Artifact> = Vec::new();
    files.push(artifact(result, Bucket::RustcArguments));
    files.push(artifact(result, Bucket::RustcPropagatedArguments));
    files.push(artifact(result, Bucket::EnvironmentVariables));
    files
}

/// The order in which the buckets are written.
pub open spec fn bucket_at(i: int) -> Bucket {
    if i == 0 {
        Bucket::RustcArguments
    } else if i == 1 {
        Bucket::RustcPropagatedArguments
    } else {
        Bucket::EnvironmentVariables
    }
}

fn artifact(result: &TheResult, b: Bucket) -> (file: Artifact)
    ensures
        file.name@ == file_name(b),
        file.content@ == joined(result@.bucket(b), separator(b)),
{
    Artifact { name: String::from_str(b.file_name()), content: result.joined(b) }
}

} // verus!

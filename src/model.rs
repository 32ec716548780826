//! Values exchanged with the in-guest agent about files and processes.
use vstd::prelude::*;
use std::path::PathBuf;
use unshare::Error as SpawnError;

verus! {

/// Declares std's `PathBuf`, carried through as an opaque value.
#[verifier::external_type_specification]
#[verifier::external_body]
pub struct ExPathBuf(std::path::PathBuf);

/// Declares std's `io::Error`, carried through as an opaque value.
#[verifier::external_type_specification]
#[verifier::external_body]
pub struct ExIoError(std::io::Error);

/// Declares unshare's process error, carried through as an opaque value.
#[verifier::external_type_specification]
#[verifier::external_body]
pub struct ExSpawnError(SpawnError);

/// A file to write in the guest: where, under which name, with what content.
#[derive(Debug)]
pub struct FileModel {
    pub path: PathBuf,
    pub file_name: String,
    pub content: String,
}

impl FileModel {
    pub fn new(path: PathBuf, file_name: String, content: String) -> (r: Self)
        ensures
            r.path == path,
            r.file_name == file_name,
            r.content == content,
    {
        Self { path, file_name, content }
    }
}

/// What a process left behind: its outputs and its exit code.
#[derive(Debug)]
pub struct CodeReturn {
    pub stdout: String,
    pub stderr: String,
    pub exit_code: i32,
}

impl CodeReturn {
    pub fn new(stdout: String, stderr: String, exit_code: i32) -> (r: Self)
        ensures
            r.stdout == stdout,
            r.stderr == stderr,
            r.exit_code == exit_code,
    {
        Self { stdout, stderr, exit_code }
    }
}

/// Failures of running a step's process.
#[derive(Debug)]
pub enum InternalError {
    CmdSpawn(SpawnError),
    ChildWait(std::io::Error),
    ChildExitError(i32),
    InvalidExitCode,
    StdoutRead,
}

} // verus!

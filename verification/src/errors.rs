//! The orchestrator's failure taxonomy.
//!
//! Every failure the library reports is an [`AoError`]: a kind from the fixed
//! taxonomy plus a fully rendered, human-readable message. Callers that add
//! context wrap an existing error with [`with_context`], which chains the
//! messages with `": "` as anyhow-style "because" clauses.

use vstd::prelude::*;

verus! {

/// The kinds of failure the orchestrator distinguishes.
#[derive(Clone, Copy, PartialEq, Eq, Structural, Debug)]
pub enum ErrorKind {
    /// The starting path could not be resolved to a canonical path.
    PathResolution,
    /// No ancestor of the starting path contains the marker configuration file.
    RootNotFound,
    /// The marker configuration file does not exist at the project root.
    ConfigNotFound,
    /// The marker configuration file exists but could not be read.
    ConfigRead,
    /// The marker configuration file could not be parsed.
    ConfigParse,
    /// A required subdirectory is absent.
    MissingDirectory,
    /// A required subdirectory path exists but is not a directory.
    NotADirectory,
    /// A required file is absent.
    MissingFile,
    /// A required file path exists but is not a file.
    NotAFile,
    /// A command string could not be tokenized, or yielded no tokens.
    CommandParse,
    /// A command's executable could not be launched.
    CommandSpawn,
    /// A command ran and exited with a non-zero status.
    CommandNonZeroExit,
    /// The requested task name is not defined in the configuration.
    TaskNotFound,
    /// The external code generator failed.
    GeneratorFailed,
    /// The external container image builder failed.
    BuilderFailed,
}

/// A failure with its kind and its fully rendered message.
#[derive(Debug)]
pub struct AoError {
    pub kind: ErrorKind,
    pub message: String,
}

pub open spec fn path_resolution_msg(start: Seq<char>) -> Seq<char> {
    "Failed to canonicalize path: "@ + start
}

pub open spec fn root_not_found_msg(start: Seq<char>) -> Seq<char> {
    "Could not find project root (ao.toml) starting from "@ + start
}

pub open spec fn config_not_found_msg(path: Seq<char>) -> Seq<char> {
    "Configuration file not found: "@ + path
}

pub open spec fn config_read_msg(path: Seq<char>, cause: Seq<char>) -> Seq<char> {
    "Failed to read config file: "@ + path + ": "@ + cause
}

pub open spec fn config_parse_msg(detail: Seq<char>) -> Seq<char> {
    "Failed to parse TOML config file: "@ + detail
}

pub open spec fn missing_directory_msg(path: Seq<char>) -> Seq<char> {
    "Required directory '"@ + path + "' not found in project root."@
}

pub open spec fn not_a_directory_msg(path: Seq<char>) -> Seq<char> {
    "Path '"@ + path + "' is not a directory."@
}

pub open spec fn missing_file_msg(file: Seq<char>, dir: Seq<char>) -> Seq<char> {
    "Required file '"@ + file + "' not found in directory '"@ + dir + "'."@
}

pub open spec fn not_a_file_msg(path: Seq<char>) -> Seq<char> {
    "Path '"@ + path + "' is not a file."@
}

pub open spec fn command_parse_msg(cmd: Seq<char>) -> Seq<char> {
    "Failed to parse command string: '"@ + cmd + "'"@
}

pub open spec fn command_empty_msg(cmd: Seq<char>) -> Seq<char> {
    "Command string '"@ + cmd + "' resulted in no executable parts."@
}

pub open spec fn command_spawn_msg(cmd: Seq<char>, cause: Seq<char>) -> Seq<char> {
    "Failed to execute command: '"@ + cmd + "': "@ + cause
}

pub open spec fn command_non_zero_msg(cmd: Seq<char>, status: Seq<char>) -> Seq<char> {
    "Tool '"@ + cmd + "' failed with status: "@ + status
}

pub open spec fn task_not_found_msg(name: Seq<char>) -> Seq<char> {
    "Task '"@ + name + "' not found in ao.toml"@
}

pub open spec fn proto_not_found_msg(path: Seq<char>) -> Seq<char> {
    "Proto file not found at "@ + path
}

pub open spec fn context_msg(context: Seq<char>, cause: Seq<char>) -> Seq<char> {
    context + ": "@ + cause
}

impl AoError {
    pub fn path_resolution(start: &str) -> (r: AoError)
        ensures
            r.kind == ErrorKind::PathResolution,
            r.message@ == path_resolution_msg(start@),
    {
        AoError {
            kind: ErrorKind::PathResolution,
            message: String::from_str("Failed to canonicalize path: ").concat(start),
        }
    }

    pub fn root_not_found(start: &str) -> (r: AoError)
        ensures
            r.kind == ErrorKind::RootNotFound,
            r.message@ == root_not_found_msg(start@),
    {
        AoError {
            kind: ErrorKind::RootNotFound,
            message: String::from_str("Could not find project root (ao.toml) starting from ")
                .concat(start),
        }
    }

    pub fn config_not_found(path: &str) -> (r: AoError)
        ensures
            r.kind == ErrorKind::ConfigNotFound,
            r.message@ == config_not_found_msg(path@),
    {
        AoError {
            kind: ErrorKind::ConfigNotFound,
            message: String::from_str("Configuration file not found: ").concat(path),
        }
    }

    pub fn config_read(path: &str, cause: &str) -> (r: AoError)
        ensures
            r.kind == ErrorKind::ConfigRead,
            r.message@ == config_read_msg(path@, cause@),
    {
        AoError {
            kind: ErrorKind::ConfigRead,
            message: String::from_str("Failed to read config file: ").concat(path).concat(
                ": ",
            ).concat(cause),
        }
    }

    pub fn config_parse(detail: &str) -> (r: AoError)
        ensures
            r.kind == ErrorKind::ConfigParse,
            r.message@ == config_parse_msg(detail@),
    {
        AoError {
            kind: ErrorKind::ConfigParse,
            message: String::from_str("Failed to parse TOML config file: ").concat(detail),
        }
    }

    pub fn missing_directory(path: &str) -> (r: AoError)
        ensures
            r.kind == ErrorKind::MissingDirectory,
            r.message@ == missing_directory_msg(path@),
    {
        AoError {
            kind: ErrorKind::MissingDirectory,
            message: String::from_str("Required directory '").concat(path).concat(
                "' not found in project root.",
            ),
        }
    }

    pub fn not_a_directory(path: &str) -> (r: AoError)
        ensures
            r.kind == ErrorKind::NotADirectory,
            r.message@ == not_a_directory_msg(path@),
    {
        AoError {
            kind: ErrorKind::NotADirectory,
            message: String::from_str("Path '").concat(path).concat("' is not a directory."),
        }
    }

    pub fn missing_file(file: &str, dir: &str) -> (r: AoError)
        ensures
            r.kind == ErrorKind::MissingFile,
            r.message@ == missing_file_msg(file@, dir@),
    {
        AoError {
            kind: ErrorKind::MissingFile,
            message: String::from_str("Required file '").concat(file).concat(
                "' not found in directory '",
            ).concat(dir).concat("'."),
        }
    }

    pub fn not_a_file(path: &str) -> (r: AoError)
        ensures
            r.kind == ErrorKind::NotAFile,
            r.message@ == not_a_file_msg(path@),
    {
        AoError {
            kind: ErrorKind::NotAFile,
            message: String::from_str("Path '").concat(path).concat("' is not a file."),
        }
    }

    pub fn command_parse(cmd: &str) -> (r: AoError)
        ensures
            r.kind == ErrorKind::CommandParse,
            r.message@ == command_parse_msg(cmd@),
    {
        AoError {
            kind: ErrorKind::CommandParse,
            message: String::from_str("Failed to parse command string: '").concat(cmd).concat(
                "'",
            ),
        }
    }

    pub fn command_empty(cmd: &str) -> (r: AoError)
        ensures
            r.kind == ErrorKind::CommandParse,
            r.message@ == command_empty_msg(cmd@),
    {
        AoError {
            kind: ErrorKind::CommandParse,
            message: String::from_str("Command string '").concat(cmd).concat(
                "' resulted in no executable parts.",
            ),
        }
    }

    pub fn command_spawn(cmd: &str, cause: &str) -> (r: AoError)
        ensures
            r.kind == ErrorKind::CommandSpawn,
            r.message@ == command_spawn_msg(cmd@, cause@),
    {
        AoError {
            kind: ErrorKind::CommandSpawn,
            message: String::from_str("Failed to execute command: '").concat(cmd).concat(
                "': ",
            ).concat(cause),
        }
    }

    pub fn command_non_zero(cmd: &str, status: &str) -> (r: AoError)
        ensures
            r.kind == ErrorKind::CommandNonZeroExit,
            r.message@ == command_non_zero_msg(cmd@, status@),
    {
        AoError {
            kind: ErrorKind::CommandNonZeroExit,
            message: String::from_str("Tool '").concat(cmd).concat(
                "' failed with status: ",
            ).concat(status),
        }
    }

    pub fn task_not_found(name: &str) -> (r: AoError)
        ensures
            r.kind == ErrorKind::TaskNotFound,
            r.message@ == task_not_found_msg(name@),
    {
        AoError {
            kind: ErrorKind::TaskNotFound,
            message: String::from_str("Task '").concat(name).concat("' not found in ao.toml"),
        }
    }

    pub fn proto_not_found(path: &str) -> (r: AoError)
        ensures
            r.kind == ErrorKind::MissingFile,
            r.message@ == proto_not_found_msg(path@),
    {
        AoError {
            kind: ErrorKind::MissingFile,
            message: String::from_str("Proto file not found at ").concat(path),
        }
    }

    /// Wraps the error in a higher-level context, keeping its kind. The
    /// messages chain as `"context: cause"`.
    pub fn with_context(self, context: &str) -> (r: AoError)
        ensures
            r.kind == self.kind,
            r.message@ == context_msg(context@, self.message@),
    {
        AoError {
            kind: self.kind,
            message: String::from_str(context).concat(": ").concat(self.message.as_str()),
        }
    }

    /// Wraps the error in a higher-level context and reclassifies it, for the
    /// stages whose failure has a kind of its own (code generation, image
    /// builds).
    pub fn reclassify(self, kind: ErrorKind, context: &str) -> (r: AoError)
        ensures
            r.kind == kind,
            r.message@ == context_msg(context@, self.message@),
    {
        AoError {
            kind,
            message: String::from_str(context).concat(": ").concat(self.message.as_str()),
        }
    }
}

} // verus!

//! Handler core for the `check` operation: the structural validator and
//! the linter/tester pipelines.
//!
//! The validator asserts that a fixed set of required subdirectories and
//! files exists under the project root, in a fixed order, failing fast on
//! the first violation with an error naming the offending path. The caller
//! probes the filesystem and hands in what it found for each required
//! entry; the validator is the judgement over those findings.

use vstd::prelude::*;

use crate::config::Config;
use crate::errors::AoError;
use crate::errors::ErrorKind;
use crate::errors::missing_directory_msg;
use crate::errors::missing_file_msg;
use crate::errors::not_a_directory_msg;
use crate::errors::not_a_file_msg;
use crate::parse::strings_view;
use crate::pipeline::CommandContext;
use crate::pipeline::CommandPipeline;
use crate::pipeline::CtxView;
use crate::text::clone_strings;

verus! {

/// What a probed path turned out to be.
#[derive(Clone, Copy, PartialEq, Eq, Structural, Debug)]
pub enum PathKind {
    /// Nothing exists at the path.
    Missing,
    /// The path exists and is a directory.
    Dir,
    /// The path exists and is a file.
    File,
}

/// The subdirectories every project must contain, in the order they are
/// checked.
pub open spec fn spec_required_dirs() -> Seq<Seq<char>> {
    seq!["api-service"@, "model-service"@, "model-interface"@]
}

/// The `(subdirectory, filename)` pairs every project must contain, in the
/// order they are checked: the container build descriptors, the dependency
/// manifests, the generated stub sources, and the interface schema.
pub open spec fn spec_required_files() -> Seq<(Seq<char>, Seq<char>)> {
    seq![
        ("api-service"@, "Dockerfile"@),
        ("api-service"@, "requirements.txt"@),
        ("api-service"@, "anops_pb2.py"@),
        ("api-service"@, "anops_pb2_grpc.py"@),
        ("model-service"@, "Dockerfile"@),
        ("model-service"@, "requirements.txt"@),
        ("model-service"@, "anops_pb2.py"@),
        ("model-service"@, "anops_pb2_grpc.py"@),
        ("model-interface"@, "anops.proto"@),
    ]
}

/// The required subdirectory names, for the caller to probe, in checking
/// order.
pub fn required_dirs() -> (r: Vec<String>)
    ensures
        r@.len() == spec_required_dirs().len(),
        forall|i: int| 0 <= i < r@.len() ==> r@[i]@ == spec_required_dirs()[i],
{
    let mut r: Vec<String> = Vec::new();
    r.push(String::from_str("api-service"));
    r.push(String::from_str("model-service"));
    r.push(String::from_str("model-interface"));
    r
}

/// The required `(subdirectory, filename)` pairs, for the caller to probe,
/// in checking order.
pub fn required_files() -> (r: Vec<(String, String)>)
    ensures
        r@.len() == spec_required_files().len(),
        forall|i: int|
            0 <= i < r@.len() ==> r@[i].0@ == spec_required_files()[i].0 && r@[i].1@
                == spec_required_files()[i].1,
{
    let mut r: Vec<(String, String)> = Vec::new();
    r.push((String::from_str("api-service"), String::from_str("Dockerfile")));
    r.push((String::from_str("api-service"), String::from_str("requirements.txt")));
    r.push((String::from_str("api-service"), String::from_str("anops_pb2.py")));
    r.push((String::from_str("api-service"), String::from_str("anops_pb2_grpc.py")));
    r.push((String::from_str("model-service"), String::from_str("Dockerfile")));
    r.push((String::from_str("model-service"), String::from_str("requirements.txt")));
    r.push((String::from_str("model-service"), String::from_str("anops_pb2.py")));
    r.push((String::from_str("model-service"), String::from_str("anops_pb2_grpc.py")));
    r.push((String::from_str("model-interface"), String::from_str("anops.proto")));
    r
}

/// The index of the first probed entry that is not of the wanted kind, if
/// any: the violation the validator reports.
pub open spec fn first_violation(kinds: Seq<PathKind>, want: PathKind) -> Option<int>
    decreases kinds.len(),
{
    if kinds.len() == 0 {
        None
    } else if kinds[0] != want {
        Some(0int)
    } else {
        match first_violation(kinds.drop_first(), want) {
            Some(i) => Some(i + 1),
            None => None,
        }
    }
}

pub proof fn lemma_first_violation_at(kinds: Seq<PathKind>, want: PathKind, i: int)
    requires
        0 <= i < kinds.len(),
        forall|j: int| 0 <= j < i ==> kinds[j] == want,
        kinds[i] != want,
    ensures
        first_violation(kinds, want) == Some(i),
    decreases i,
{
    if i > 0 {
        assert(forall|j: int|
            0 <= j < i - 1 ==> kinds.drop_first()[j] == kinds[j + 1] && kinds[j + 1] == want);
        lemma_first_violation_at(kinds.drop_first(), want, i - 1);
    }
}

pub proof fn lemma_first_violation_none(kinds: Seq<PathKind>, want: PathKind)
    requires
        forall|j: int| 0 <= j < kinds.len() ==> kinds[j] == want,
    ensures
        first_violation(kinds, want) is None,
    decreases kinds.len(),
{
    if kinds.len() > 0 {
        assert(forall|j: int|
            0 <= j < kinds.len() - 1 ==> kinds.drop_first()[j] == kinds[j + 1] && kinds[j + 1]
                == want);
        lemma_first_violation_none(kinds.drop_first(), want);
    }
}

/// The error the validator reports for the first directory violation: a
/// missing entry names the full path under the root; an entry of the wrong
/// kind names it too.
pub open spec fn dir_violation_error(root: Seq<char>, i: int, kind: PathKind, e: AoError) -> bool {
    if kind is Missing {
        e.kind == ErrorKind::MissingDirectory && e.message@ == missing_directory_msg(
            root + "/"@ + spec_required_dirs()[i],
        )
    } else {
        e.kind == ErrorKind::NotADirectory && e.message@ == not_a_directory_msg(
            root + "/"@ + spec_required_dirs()[i],
        )
    }
}

/// The error the validator reports for the first file violation: a missing
/// entry names the file and its directory; an entry of the wrong kind names
/// the full path.
pub open spec fn file_violation_error(root: Seq<char>, i: int, kind: PathKind, e: AoError) -> bool {
    if kind is Missing {
        e.kind == ErrorKind::MissingFile && e.message@ == missing_file_msg(
            spec_required_files()[i].1,
            spec_required_files()[i].0,
        )
    } else {
        e.kind == ErrorKind::NotAFile && e.message@ == not_a_file_msg(
            root + "/"@ + spec_required_files()[i].0 + "/"@ + spec_required_files()[i].1,
        )
    }
}

/// Checks the required directories, then the required files, in order,
/// failing fast: the reported error is the first violation and names
/// exactly the offending path; later entries are not judged.
///
/// `dir_kinds[i]` and `file_kinds[i]` report what the caller found on disk
/// for the i-th required entry, resolved against `root`.
pub fn validate_structure(root: &str, dir_kinds: &Vec<PathKind>, file_kinds: &Vec<PathKind>) -> (r:
    Result<(), AoError>)
    requires
        dir_kinds@.len() == spec_required_dirs().len(),
        file_kinds@.len() == spec_required_files().len(),
    ensures
        match first_violation(dir_kinds@, PathKind::Dir) {
            Some(i) => r matches Err(e) && dir_violation_error(root@, i, dir_kinds@[i], e),
            None => match first_violation(file_kinds@, PathKind::File) {
                Some(i) => r matches Err(e) && file_violation_error(root@, i, file_kinds@[i], e),
                None => r is Ok,
            },
        },
{
    let dirs = required_dirs();
    let mut i: usize = 0;
    while i < dir_kinds.len()
        invariant
            dir_kinds@.len() == spec_required_dirs().len(),
            dirs@.len() == spec_required_dirs().len(),
            forall|k: int| 0 <= k < dirs@.len() ==> dirs@[k]@ == spec_required_dirs()[k],
            i <= dir_kinds@.len(),
            forall|j: int| 0 <= j < i ==> dir_kinds@[j] == PathKind::Dir,
        decreases dir_kinds@.len() - i,
    {
        let kind = dir_kinds[i];
        if !matches!(kind, PathKind::Dir) {
            proof {
                lemma_first_violation_at(dir_kinds@, PathKind::Dir, i as int);
            }
            let full = String::from_str(root).concat("/").concat(dirs[i].as_str());
            if matches!(kind, PathKind::Missing) {
                return Err(AoError::missing_directory(full.as_str()));
            } else {
                return Err(AoError::not_a_directory(full.as_str()));
            }
        }
        i = i + 1;
    }
    proof {
        lemma_first_violation_none(dir_kinds@, PathKind::Dir);
    }
    let files = required_files();
    let mut i: usize = 0;
    while i < file_kinds.len()
        invariant
            file_kinds@.len() == spec_required_files().len(),
            files@.len() == spec_required_files().len(),
            forall|k: int|
                0 <= k < files@.len() ==> files@[k].0@ == spec_required_files()[k].0
                    && files@[k].1@ == spec_required_files()[k].1,
            i <= file_kinds@.len(),
            forall|j: int| 0 <= j < i ==> file_kinds@[j] == PathKind::File,
            first_violation(dir_kinds@, PathKind::Dir) is None,
        decreases file_kinds@.len() - i,
    {
        let kind = file_kinds[i];
        if !matches!(kind, PathKind::File) {
            proof {
                lemma_first_violation_at(file_kinds@, PathKind::File, i as int);
            }
            if matches!(kind, PathKind::Missing) {
                return Err(AoError::missing_file(files[i].1.as_str(), files[i].0.as_str()));
            } else {
                let full = String::from_str(root).concat("/").concat(files[i].0.as_str()).concat(
                    "/",
                ).concat(files[i].1.as_str());
                return Err(AoError::not_a_file(full.as_str()));
            }
        }
        i = i + 1;
    }
    proof {
        lemma_first_violation_none(file_kinds@, PathKind::File);
    }
    Ok(())
}

/// Fail-fast of the validator, as the check flow shows it: when the first
/// violation is a removed required directory, the reported error is the
/// missing-directory error for exactly that entry, whatever the later
/// entries hold.
pub proof fn lemma_validator_reports_first_missing_dir(kinds: Seq<PathKind>, i: int)
    requires
        0 <= i < kinds.len(),
        forall|j: int| 0 <= j < i ==> kinds[j] == PathKind::Dir,
        kinds[i] == PathKind::Missing,
    ensures
        first_violation(kinds, PathKind::Dir) == Some(i),
{
    lemma_first_violation_at(kinds, PathKind::Dir, i);
}

/// Validates the structure, then yields the linter and tester pipelines of
/// the check flow: every configured linter in declared order, then every
/// configured tester, each run fail-fast at the project root.
pub fn run(root: &str, config: &Config, dir_kinds: &Vec<PathKind>, file_kinds: &Vec<PathKind>) -> (
    r: Result<(CommandPipeline, CommandPipeline), AoError>)
    requires
        dir_kinds@.len() == spec_required_dirs().len(),
        file_kinds@.len() == spec_required_files().len(),
    ensures
        match r {
            Ok(ps) => {
                &&& first_violation(dir_kinds@, PathKind::Dir) is None
                &&& first_violation(file_kinds@, PathKind::File) is None
                &&& ps.0.wf() && ps.0@.commands == config@.linters && ps.0@.next == 0
                    && !ps.0@.failed && ps.0@.context == CtxView::Linter
                &&& ps.1.wf() && ps.1@.commands == config@.testers && ps.1@.next == 0
                    && !ps.1@.failed && ps.1@.context == CtxView::Tester
            },
            Err(e) => match first_violation(dir_kinds@, PathKind::Dir) {
                Some(i) => dir_violation_error(root@, i, dir_kinds@[i], e),
                None => first_violation(file_kinds@, PathKind::File) matches Some(i)
                    && file_violation_error(root@, i, file_kinds@[i], e),
            },
        },
{
    match validate_structure(root, dir_kinds, file_kinds) {
        Err(e) => Err(e),
        Ok(()) => {
            let linters = clone_strings(&config.check.linters);
            let testers = clone_strings(&config.check.testers);
            proof {
                assert(strings_view(linters@) =~= strings_view(config.check.linters@));
                assert(strings_view(testers@) =~= strings_view(config.check.testers@));
            }
            let pl = CommandPipeline::new(linters, CommandContext::Linter);
            let pt = CommandPipeline::new(testers, CommandContext::Tester);
            Ok((pl, pt))
        },
    }
}

} // verus!

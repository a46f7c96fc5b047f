//! Handler core for the `build` operation: the stage machine that orders
//! code generation, the pre-build checks and the image builds, and the
//! per-service image plan.
//!
//! The flow is strictly ordered: the external code generator runs first and
//! its failure aborts everything; then the full check pipeline; only then
//! are images planned, one per service directory that exists on disk — an
//! absent service directory is skipped with a warning, never a failure.

use vstd::prelude::*;

use crate::check::PathKind;
use crate::command::CommandPlan;
use crate::errors::AoError;
use crate::errors::ErrorKind;
use crate::errors::context_msg;
use crate::errors::proto_not_found_msg;

verus! {

/// The tag for a service's container image: `<project>-<service>:latest`.
pub open spec fn image_tag_spec(project: Seq<char>, service: Seq<char>) -> Seq<char> {
    project + "-"@ + service + ":latest"@
}

pub fn image_tag(project: &str, service: &str) -> (r: String)
    ensures
        r@ == image_tag_spec(project@, service@),
{
    String::from_str(project).concat("-").concat(service).concat(":latest")
}

/// The container build command run inside a service's directory.
pub open spec fn build_command_spec(tag: Seq<char>) -> Seq<char> {
    "docker build -t "@ + tag + " ."@
}

/// One service's step of the image stage: build its image inside its
/// directory, or skip the service because its directory is absent.
#[derive(Debug)]
pub enum ServicePlan {
    Build { service: String, tag: String, command: String },
    Skip { service: String },
}

/// What the image stage owes one service: a build with the deterministic
/// tag when its directory exists, a warning-only skip otherwise.
pub open spec fn service_plan_for(
    project: Seq<char>,
    service: Seq<char>,
    kind: PathKind,
    p: ServicePlan,
) -> bool {
    if kind is Dir {
        p matches ServicePlan::Build { service: s, tag, command } && s@ == service && tag@
            == image_tag_spec(project, service) && command@ == build_command_spec(
            image_tag_spec(project, service),
        )
    } else {
        p matches ServicePlan::Skip { service: s } && s@ == service
    }
}

/// The image stage for the two fixed service directories, in order. A
/// service whose directory is absent is skipped, not failed.
pub fn plan_images(project: &str, api_kind: PathKind, model_kind: PathKind) -> (r: Vec<ServicePlan>)
    ensures
        r@.len() == 2,
        service_plan_for(project@, "api-service"@, api_kind, r@[0]),
        service_plan_for(project@, "model-service"@, model_kind, r@[1]),
{
    let mut r: Vec<ServicePlan> = Vec::new();
    if matches!(api_kind, PathKind::Dir) {
        let tag = image_tag(project, "api-service");
        let command = String::from_str("docker build -t ").concat(tag.as_str()).concat(" .");
        r.push(ServicePlan::Build { service: String::from_str("api-service"), tag, command });
    } else {
        r.push(ServicePlan::Skip { service: String::from_str("api-service") });
    }
    if matches!(model_kind, PathKind::Dir) {
        let tag = image_tag(project, "model-service");
        let command = String::from_str("docker build -t ").concat(tag.as_str()).concat(" .");
        r.push(ServicePlan::Build { service: String::from_str("model-service"), tag, command });
    } else {
        r.push(ServicePlan::Skip { service: String::from_str("model-service") });
    }
    r
}

/// The strictly ordered stages of the build flow.
#[derive(Clone, Copy, PartialEq, Eq, Structural, Debug)]
pub enum BuildStage {
    Generation,
    Checks,
    Images,
    Complete,
    Aborted,
}

/// The build flow as a stage machine. Every stage can fail and aborts the
/// whole flow; the image stage is reachable only after generation and the
/// checks both succeeded, so a generation failure fails the operation
/// before any image is planned.
#[derive(Debug)]
pub struct BuildFlow {
    pub stage: BuildStage,
}

impl BuildFlow {
    pub fn new() -> (f: BuildFlow)
        ensures
            f.stage == BuildStage::Generation,
    {
        BuildFlow { stage: BuildStage::Generation }
    }

    /// Records the external code generator's result. Failure aborts the
    /// flow as `GeneratorFailed`.
    pub fn generation_done(&mut self, result: Result<(), AoError>) -> (r: Result<(), AoError>)
        requires
            old(self).stage == BuildStage::Generation,
        ensures
            match result {
                Ok(u) => final(self).stage == BuildStage::Checks && r is Ok,
                Err(e) => final(self).stage == BuildStage::Aborted && (r matches Err(e2)
                    && e2.kind == ErrorKind::GeneratorFailed && e2.message@ == context_msg(
                    "Failed to generate gRPC code"@,
                    e.message@,
                )),
            },
    {
        match result {
            Ok(u) => {
                self.stage = BuildStage::Checks;
                Ok(())
            },
            Err(e) => {
                self.stage = BuildStage::Aborted;
                Err(e.reclassify(ErrorKind::GeneratorFailed, "Failed to generate gRPC code"))
            },
        }
    }

    /// Records the pre-build check pipeline's result. Failure aborts the
    /// flow, keeping the underlying kind under the pre-build context.
    pub fn checks_done(&mut self, result: Result<(), AoError>) -> (r: Result<(), AoError>)
        requires
            old(self).stage == BuildStage::Checks,
        ensures
            match result {
                Ok(u) => final(self).stage == BuildStage::Images && r is Ok,
                Err(e) => final(self).stage == BuildStage::Aborted && (r matches Err(e2)
                    && e2.kind == e.kind && e2.message@ == context_msg(
                    "Pre-build checks failed"@,
                    e.message@,
                )),
            },
    {
        match result {
            Ok(u) => {
                self.stage = BuildStage::Images;
                Ok(())
            },
            Err(e) => {
                self.stage = BuildStage::Aborted;
                Err(e.with_context("Pre-build checks failed"))
            },
        }
    }

    /// The image stage, reachable only in a flow whose generation and
    /// checks both succeeded; it yields the per-service plans and completes
    /// the flow.
    pub fn plan_images(&mut self, project: &str, api_kind: PathKind, model_kind: PathKind) -> (r:
        Vec<ServicePlan>)
        requires
            old(self).stage == BuildStage::Images,
        ensures
            final(self).stage == BuildStage::Complete,
            r@.len() == 2,
            service_plan_for(project@, "api-service"@, api_kind, r@[0]),
            service_plan_for(project@, "model-service"@, model_kind, r@[1]),
    {
        self.stage = BuildStage::Complete;
        plan_images(project, api_kind, model_kind)
    }
}

/// The failure of one service's image build, under its context.
pub fn image_build_failed(service: &str, tag: &str, cause: AoError) -> (r: AoError)
    ensures
        r.kind == ErrorKind::BuilderFailed,
        r.message@ == context_msg(
            "Failed to build "@ + service@ + " image: "@ + tag@,
            cause.message@,
        ),
{
    let ctx = String::from_str("Failed to build ").concat(service).concat(" image: ").concat(tag);
    cause.reclassify(ErrorKind::BuilderFailed, ctx.as_str())
}

/// The decision before code generation: the schema file must exist in the
/// interface directory.
pub fn require_proto(proto_path: &str, kind: PathKind) -> (r: Result<(), AoError>)
    ensures
        match kind {
            PathKind::Missing => r matches Err(e) && e.kind == ErrorKind::MissingFile
                && e.message@ == proto_not_found_msg(proto_path@),
            _ => r is Ok,
        },
{
    if matches!(kind, PathKind::Missing) {
        Err(AoError::proto_not_found(proto_path))
    } else {
        Ok(())
    }
}

/// The external code generator's invocation, run at the project root: the
/// stub generator module with the interface directory as include path, the
/// two service directories as output targets, and the schema file name.
pub fn grpc_generation_plan(
    interface_dir: &str,
    api_dir: &str,
    model_dir: &str,
    proto_name: &str,
) -> (r: CommandPlan)
    ensures
        r.program@ == "python"@,
        r.args@.len() == 10,
        r.args@[0]@ == "-m"@,
        r.args@[1]@ == "grpc_tools.protoc"@,
        r.args@[2]@ == "-I"@ + interface_dir@,
        r.args@[3]@ == "--python_out="@ + api_dir@,
        r.args@[4]@ == "--pyi_out="@ + api_dir@,
        r.args@[5]@ == "--grpc_python_out="@ + api_dir@,
        r.args@[6]@ == "--python_out="@ + model_dir@,
        r.args@[7]@ == "--pyi_out="@ + model_dir@,
        r.args@[8]@ == "--grpc_python_out="@ + model_dir@,
        r.args@[9]@ == proto_name@,
{
    let mut args: Vec<String> = Vec::new();
    args.push(String::from_str("-m"));
    args.push(String::from_str("grpc_tools.protoc"));
    args.push(String::from_str("-I").concat(interface_dir));
    args.push(String::from_str("--python_out=").concat(api_dir));
    args.push(String::from_str("--pyi_out=").concat(api_dir));
    args.push(String::from_str("--grpc_python_out=").concat(api_dir));
    args.push(String::from_str("--python_out=").concat(model_dir));
    args.push(String::from_str("--pyi_out=").concat(model_dir));
    args.push(String::from_str("--grpc_python_out=").concat(model_dir));
    args.push(String::from_str(proto_name));
    CommandPlan { program: String::from_str("python"), args }
}

} // verus!

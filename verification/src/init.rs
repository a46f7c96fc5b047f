//! Handler core for the `init` operation: the ordered plan of directories
//! and fixed-content files that scaffold a new project.
//!
//! The caller performs the steps in order against the filesystem; the plan
//! itself — which paths, which contents, derived from the target path — is
//! decided here.

use vstd::prelude::*;

use crate::text::chars_vec;
use crate::text::string_of;
use crate::text::sub_vec;
use crate::text::vec_str_eq;

verus! {

/// One scaffolding step: create a directory, or write a file with the
/// given content, overwriting without confirmation.
#[derive(Debug)]
pub enum ScaffoldStep {
    CreateDir { path: String },
    WriteFile { path: String, content: String },
}

// ===== the project's name =====

/// The target path without its trailing slashes.
pub open spec fn strip_trailing_slashes(p: Seq<char>) -> Seq<char>
    decreases p.len(),
{
    if p.len() > 0 && p.last() == '/' {
        strip_trailing_slashes(p.drop_last())
    } else {
        p
    }
}

/// The index where the final path component starts: just after the last
/// slash, or the start.
pub open spec fn tail_start(q: Seq<char>) -> int
    decreases q.len(),
{
    if q.len() == 0 {
        0
    } else if q.last() == '/' {
        q.len() as int
    } else {
        tail_start(q.drop_last())
    }
}

/// The project's default name: the target path's final component, or the
/// fixed fallback where the path has none (it is all slashes, empty, or
/// ends in `..`).
pub open spec fn spec_project_name(p: Seq<char>) -> Seq<char> {
    let q = strip_trailing_slashes(p);
    let t = q.subrange(tail_start(q), q.len() as int);
    if t.len() == 0 || t == ".."@ {
        "anops-project"@
    } else {
        t
    }
}

/// Derives the project's name from the target path, as
/// [`spec_project_name`] defines it.
pub fn project_name_of_path(path: &str) -> (r: String)
    ensures
        r@ == spec_project_name(path@),
{
    let cs = chars_vec(path);
    let mut e: usize = cs.len();
    assert(cs@.subrange(0, cs@.len() as int) =~= cs@);
    while e > 0 && cs[e - 1] == '/'
        invariant
            e <= cs@.len(),
            strip_trailing_slashes(cs@) == strip_trailing_slashes(cs@.subrange(0, e as int)),
        decreases e,
    {
        assert(cs@.subrange(0, e as int).last() == cs@[e as int - 1]);
        assert(cs@.subrange(0, e as int).drop_last() =~= cs@.subrange(0, e as int - 1));
        e = e - 1;
    }
    let ghost q = cs@.subrange(0, e as int);
    proof {
        if e > 0 {
            assert(q.last() == cs@[e as int - 1]);
        }
        assert(strip_trailing_slashes(q) == q);
    }
    let mut s: usize = e;
    while s > 0 && cs[s - 1] != '/'
        invariant
            s <= e <= cs@.len(),
            q == cs@.subrange(0, e as int),
            tail_start(q) == tail_start(cs@.subrange(0, s as int)),
        decreases s,
    {
        assert(cs@.subrange(0, s as int).last() == cs@[s as int - 1]);
        assert(cs@.subrange(0, s as int).drop_last() =~= cs@.subrange(0, s as int - 1));
        s = s - 1;
    }
    proof {
        if s > 0 {
            assert(cs@.subrange(0, s as int).last() == cs@[s as int - 1]);
        }
        assert(tail_start(cs@.subrange(0, s as int)) == s as int);
        assert(q.subrange(tail_start(q), q.len() as int) =~= cs@.subrange(s as int, e as int));
    }
    let t = sub_vec(&cs, s, e);
    if t.len() == 0 || vec_str_eq(&t, "..") {
        String::from_str("anops-project")
    } else {
        string_of(&t)
    }
}

// ===== fixed file contents =====

/// The marker configuration a fresh project starts with: its name, and
/// empty check lists to fill in.
pub open spec fn ao_toml_content(name: Seq<char>) -> Seq<char> {
    "[project]\nname = \""@ + name + "\"\n\n[check]\nlinters = []\ntesters = []\n"@
}

pub open spec fn gitignore_content() -> Seq<char> {
    "__pycache__/\n*.pyc\n*.pyo\n.pytest_cache/\n.coverage\nvenv/\nenv/\n"@
}

pub open spec fn root_readme_content() -> Seq<char> {
    "# AnOps Project\n\nThis is the root README for the AnOps project.\n"@
}

pub open spec fn api_readme_content() -> Seq<char> {
    "# AnOps API Service\n\nThe RESTful entry point; talks to the model service over gRPC.\n"@
}

pub open spec fn model_readme_content() -> Seq<char> {
    "# AnOps Model Service\n\nHosts the model and serves the gRPC interface.\n"@
}

pub open spec fn interface_readme_content() -> Seq<char> {
    "# AnOps Model Interface\n\nProtocol buffer definitions shared by the two services.\n"@
}

pub open spec fn api_dockerfile_content() -> Seq<char> {
    "FROM python:3.11-slim\n\nWORKDIR /app\n\nCOPY . .\n\nEXPOSE 8000\n"@
}

pub open spec fn model_dockerfile_content() -> Seq<char> {
    "FROM python:3.11-slim\n\nWORKDIR /app\n\nCOPY . .\n\nEXPOSE 50051\n"@
}

pub open spec fn api_requirements_content() -> Seq<char> {
    "fastapi>=0.100.0,<1.0.0\nuvicorn[standard]>=0.20.0,<1.0.0\ngrpcio>=1.50.0,<2.0.0\n"@
}

pub open spec fn model_requirements_content() -> Seq<char> {
    "grpcio>=1.50.0,<2.0.0\n"@
}

pub open spec fn api_main_content() -> Seq<char> {
    "# Entry point for the api-service.\n"@
}

pub open spec fn model_server_content() -> Seq<char> {
    "# Entry point for the model-service gRPC server.\n"@
}

pub open spec fn api_test_content() -> Seq<char> {
    "def test_placeholder():\n    assert True\n"@
}

pub open spec fn model_test_content() -> Seq<char> {
    "def test_placeholder():\n    assert True\n"@
}

pub open spec fn proto_content() -> Seq<char> {
    "syntax = \"proto3\";\n\npackage anops;\n\nservice AnOps {\n  rpc Predict (PredictRequest) returns (PredictResponse) {}\n}\n\nmessage PredictRequest {\n  string input_data = 1;\n}\n\nmessage PredictResponse {\n  string output_data = 1;\n}\n"@
}

// ===== the plan =====

/// The ordered scaffold for a new project at `target`: the root directory
/// and its marker configuration, the three service directories with their
/// fixed files and test subdirectories, the root readme and the ignore
/// file.
pub fn run(target: &str) -> (r: Vec<ScaffoldStep>)
    ensures
        r@.len() == 21,
        r@[0] matches ScaffoldStep::CreateDir { path } && path@ == target@,
        r@[1] matches ScaffoldStep::WriteFile { path, content } && path@ == target@ + "/ao.toml"@
            && content@ == ao_toml_content(spec_project_name(target@)),
        r@[2] matches ScaffoldStep::CreateDir { path } && path@ == target@ + "/api-service"@,
        r@[3] matches ScaffoldStep::WriteFile { path, content } && path@ == target@
            + "/api-service/README.md"@ && content@ == api_readme_content(),
        r@[4] matches ScaffoldStep::WriteFile { path, content } && path@ == target@
            + "/api-service/Dockerfile"@ && content@ == api_dockerfile_content(),
        r@[5] matches ScaffoldStep::WriteFile { path, content } && path@ == target@
            + "/api-service/requirements.txt"@ && content@ == api_requirements_content(),
        r@[6] matches ScaffoldStep::WriteFile { path, content } && path@ == target@
            + "/api-service/main.py"@ && content@ == api_main_content(),
        r@[7] matches ScaffoldStep::CreateDir { path } && path@ == target@ + "/api-service/tests"@,
        r@[8] matches ScaffoldStep::WriteFile { path, content } && path@ == target@
            + "/api-service/tests/test_main.py"@ && content@ == api_test_content(),
        r@[9] matches ScaffoldStep::CreateDir { path } && path@ == target@ + "/model-service"@,
        r@[10] matches ScaffoldStep::WriteFile { path, content } && path@ == target@
            + "/model-service/README.md"@ && content@ == model_readme_content(),
        r@[11] matches ScaffoldStep::WriteFile { path, content } && path@ == target@
            + "/model-service/Dockerfile"@ && content@ == model_dockerfile_content(),
        r@[12] matches ScaffoldStep::WriteFile { path, content } && path@ == target@
            + "/model-service/requirements.txt"@ && content@ == model_requirements_content(),
        r@[13] matches ScaffoldStep::WriteFile { path, content } && path@ == target@
            + "/model-service/server.py"@ && content@ == model_server_content(),
        r@[14] matches ScaffoldStep::CreateDir { path } && path@ == target@
            + "/model-service/tests"@,
        r@[15] matches ScaffoldStep::WriteFile { path, content } && path@ == target@
            + "/model-service/tests/test_server.py"@ && content@ == model_test_content(),
        r@[16] matches ScaffoldStep::CreateDir { path } && path@ == target@ + "/model-interface"@,
        r@[17] matches ScaffoldStep::WriteFile { path, content } && path@ == target@
            + "/model-interface/README.md"@ && content@ == interface_readme_content(),
        r@[18] matches ScaffoldStep::WriteFile { path, content } && path@ == target@
            + "/model-interface/anops.proto"@ && content@ == proto_content(),
        r@[19] matches ScaffoldStep::WriteFile { path, content } && path@ == target@
            + "/README.md"@ && content@ == root_readme_content(),
        r@[20] matches ScaffoldStep::WriteFile { path, content } && path@ == target@
            + "/.gitignore"@ && content@ == gitignore_content(),
{
    let name = project_name_of_path(target);
    let mut r: Vec<ScaffoldStep> = Vec::new();
    r.push(ScaffoldStep::CreateDir { path: String::from_str(target) });
    let config_content = String::from_str("[project]\nname = \"").concat(name.as_str()).concat(
        "\"\n\n[check]\nlinters = []\ntesters = []\n",
    );
    r.push(
        ScaffoldStep::WriteFile {
            path: String::from_str(target).concat("/ao.toml"),
            content: config_content,
        },
    );
    r.push(ScaffoldStep::CreateDir { path: String::from_str(target).concat("/api-service") });
    r.push(
        ScaffoldStep::WriteFile {
            path: String::from_str(target).concat("/api-service/README.md"),
            content: String::from_str(
                "# AnOps API Service\n\nThe RESTful entry point; talks to the model service over gRPC.\n",
            ),
        },
    );
    r.push(
        ScaffoldStep::WriteFile {
            path: String::from_str(target).concat("/api-service/Dockerfile"),
            content: String::from_str("FROM python:3.11-slim\n\nWORKDIR /app\n\nCOPY . .\n\nEXPOSE 8000\n"),
        },
    );
    r.push(
        ScaffoldStep::WriteFile {
            path: String::from_str(target).concat("/api-service/requirements.txt"),
            content: String::from_str(
                "fastapi>=0.100.0,<1.0.0\nuvicorn[standard]>=0.20.0,<1.0.0\ngrpcio>=1.50.0,<2.0.0\n",
            ),
        },
    );
    r.push(
        ScaffoldStep::WriteFile {
            path: String::from_str(target).concat("/api-service/main.py"),
            content: String::from_str("# Entry point for the api-service.\n"),
        },
    );
    r.push(ScaffoldStep::CreateDir { path: String::from_str(target).concat("/api-service/tests") });
    r.push(
        ScaffoldStep::WriteFile {
            path: String::from_str(target).concat("/api-service/tests/test_main.py"),
            content: String::from_str("def test_placeholder():\n    assert True\n"),
        },
    );
    r.push(ScaffoldStep::CreateDir { path: String::from_str(target).concat("/model-service") });
    r.push(
        ScaffoldStep::WriteFile {
            path: String::from_str(target).concat("/model-service/README.md"),
            content: String::from_str(
                "# AnOps Model Service\n\nHosts the model and serves the gRPC interface.\n",
            ),
        },
    );
    r.push(
        ScaffoldStep::WriteFile {
            path: String::from_str(target).concat("/model-service/Dockerfile"),
            content: String::from_str("FROM python:3.11-slim\n\nWORKDIR /app\n\nCOPY . .\n\nEXPOSE 50051\n"),
        },
    );
    r.push(
        ScaffoldStep::WriteFile {
            path: String::from_str(target).concat("/model-service/requirements.txt"),
            content: String::from_str("grpcio>=1.50.0,<2.0.0\n"),
        },
    );
    r.push(
        ScaffoldStep::WriteFile {
            path: String::from_str(target).concat("/model-service/server.py"),
            content: String::from_str("# Entry point for the model-service gRPC server.\n"),
        },
    );
    r.push(
        ScaffoldStep::CreateDir { path: String::from_str(target).concat("/model-service/tests") },
    );
    r.push(
        ScaffoldStep::WriteFile {
            path: String::from_str(target).concat("/model-service/tests/test_server.py"),
            content: String::from_str("def test_placeholder():\n    assert True\n"),
        },
    );
    r.push(ScaffoldStep::CreateDir { path: String::from_str(target).concat("/model-interface") });
    r.push(
        ScaffoldStep::WriteFile {
            path: String::from_str(target).concat("/model-interface/README.md"),
            content: String::from_str(
                "# AnOps Model Interface\n\nProtocol buffer definitions shared by the two services.\n",
            ),
        },
    );
    r.push(
        ScaffoldStep::WriteFile {
            path: String::from_str(target).concat("/model-interface/anops.proto"),
            content: String::from_str(
                "syntax = \"proto3\";\n\npackage anops;\n\nservice AnOps {\n  rpc Predict (PredictRequest) returns (PredictResponse) {}\n}\n\nmessage PredictRequest {\n  string input_data = 1;\n}\n\nmessage PredictResponse {\n  string output_data = 1;\n}\n",
            ),
        },
    );
    r.push(
        ScaffoldStep::WriteFile {
            path: String::from_str(target).concat("/README.md"),
            content: String::from_str(
                "# AnOps Project\n\nThis is the root README for the AnOps project.\n",
            ),
        },
    );
    r.push(
        ScaffoldStep::WriteFile {
            path: String::from_str(target).concat("/.gitignore"),
            content: String::from_str(
                "__pycache__/\n*.pyc\n*.pyo\n.pytest_cache/\n.coverage\nvenv/\nenv/\n",
            ),
        },
    );
    r
}

/// The message reported when scaffolding cannot create the project's root
/// directory.
pub open spec fn root_create_failed_msg(path: Seq<char>, cause: Seq<char>) -> Seq<char> {
    "Failed to create project directory: "@ + path + ": "@ + cause
}

pub fn root_create_failed_message(path: &str, cause: &str) -> (r: String)
    ensures
        r@ == root_create_failed_msg(path@, cause@),
{
    String::from_str("Failed to create project directory: ").concat(path).concat(": ").concat(
        cause,
    )
}

} // verus!

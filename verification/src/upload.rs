//! Planning of artifact publication: the run-wide mode, the batch join, and
//! the exact backend invocation for a non-empty batch.  Executing a planned
//! invocation (spawning the upload agent) is the caller's business; the
//! library fixes what is invoked, with which arguments, and when nothing
//! may be invoked at all.

use vstd::prelude::*;
use vstd::string::StringExecFns;

use crate::text::push_char;

verus! {

/// The run-wide upload mode.
#[derive(Clone, Copy, PartialEq, Eq, Structural)]
pub enum Mode {
    /// Report intended uploads only; no filesystem or process effect.
    Dry,
    /// Copy staged files for real and invoke the CI upload agent.
    Buildkite,
}

/// One planned invocation of the external upload agent.
pub struct CommandSpec {
    pub program: String,
    pub args: Vec<String>,
    pub cwd: Option<String>,
}

/// The parts joined with the fixed `;` delimiter.
pub open spec fn join_semi(parts: Seq<Seq<char>>) -> Seq<char>
    decreases parts.len(),
{
    if parts.len() == 0 {
        Seq::empty()
    } else if parts.len() == 1 {
        parts[0]
    } else {
        join_semi(parts.drop_last()) + seq![';'] + parts.last()
    }
}

/// Joins a batch of paths with the fixed delimiter.
pub fn join_paths(parts: &Vec<String>) -> (r: String)
    ensures
        r@ == join_semi(parts.deep_view()),
{
    let ghost ps = parts.deep_view();
    let mut out = String::new();
    let n = parts.len();
    proof {
        assert(ps.len() == n);
        assert(ps.take(0) =~= Seq::<Seq<char>>::empty());
    }
    for i in 0..n
        invariant
            ps == parts.deep_view(),
            ps.len() == n == parts@.len(),
            out@ == join_semi(ps.take(i as int)),
    {
        if i > 0 {
            push_char(&mut out, ';');
        }
        out.append(parts[i].as_str());
        proof {
            assert(ps.take(i + 1).drop_last() =~= ps.take(i as int));
            assert(ps.take(i + 1).last() == ps[i as int]);
            assert(out@ == join_semi(ps.take(i + 1)));
        }
    }
    proof {
        assert(ps.take(n as int) =~= ps);
    }
    out
}

/// The invocation of the CI upload agent for a batch: the fixed program and
/// subcommand, the batch joined with the fixed delimiter, and the given
/// working directory.
pub fn buildkite_artifact_upload(cwd: Option<&String>, artifacts: &Vec<String>) -> (cmd:
    CommandSpec)
    ensures
        cmd.program@ == "buildkite-agent"@,
        cmd.args.deep_view() == seq!["artifact"@, "upload"@, join_semi(artifacts.deep_view())],
        match (cmd.cwd, cwd) {
            (Some(c), Some(w)) => c@ == w@,
            (None, None) => true,
            _ => false,
        },
{
    let joined = join_paths(artifacts);
    let mut args: Vec<String> = Vec::new();
    args.push(String::from_str("artifact"));
    args.push(String::from_str("upload"));
    args.push(joined);
    proof {
        assert(args.deep_view() =~= seq![
            "artifact"@,
            "upload"@,
            join_semi(artifacts.deep_view()),
        ]);
    }
    let owned_cwd = match cwd {
        Some(c) => Some(c.clone()),
        None => None,
    };
    CommandSpec { program: String::from_str("buildkite-agent"), args, cwd: owned_cwd }
}

/// Plans the publication of one batch.  In dry mode nothing is ever
/// invoked: the caller merely reports each path.  In CI-backend mode the
/// upload agent is invoked once per batch — and an empty batch invokes
/// nothing.  A non-zero exit of the planned invocation is treated by
/// callers as an upload failure.
pub fn upload_artifacts_plan(cwd: Option<&String>, artifacts: &Vec<String>, mode: Mode) -> (r:
    Option<CommandSpec>)
    ensures
        mode == Mode::Dry ==> r is None,
        artifacts.deep_view().len() == 0 ==> r is None,
        mode == Mode::Buildkite && artifacts.deep_view().len() > 0 ==> (r matches Some(cmd) && {
            &&& cmd.program@ == "buildkite-agent"@
            &&& cmd.args.deep_view() == seq![
                "artifact"@,
                "upload"@,
                join_semi(artifacts.deep_view()),
            ]
            &&& match (cmd.cwd, cwd) {
                (Some(c), Some(w)) => c@ == w@,
                (None, None) => true,
                _ => false,
            }
        }),
{
    match mode {
        Mode::Dry => None,
        Mode::Buildkite => {
            if artifacts.len() == 0 {
                None
            } else {
                Some(buildkite_artifact_upload(cwd, artifacts))
            }
        },
    }
}

/// Plans the end-of-run upload of the whole raw event-log file as a single
/// artifact, from the file's own directory.
pub fn upload_bep_json_file(mode: Mode, build_event_json_file: &str) -> (r: Option<CommandSpec>)
    ensures
        mode == Mode::Dry ==> r is None,
        mode == Mode::Buildkite ==> (r matches Some(cmd) && {
            &&& cmd.program@ == "buildkite-agent"@
            &&& cmd.args.deep_view() == seq![
                "artifact"@,
                "upload"@,
                build_event_json_file@,
            ]
            &&& cmd.cwd is None
        }),
{
    let mut artifacts: Vec<String> = Vec::new();
    artifacts.push(build_event_json_file.to_owned());
    proof {
        assert(artifacts.deep_view() =~= seq![build_event_json_file@]);
        assert(join_semi(artifacts.deep_view()) == build_event_json_file@);
    }
    upload_artifacts_plan(None, &artifacts, mode)
}

} // verus!

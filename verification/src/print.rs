//! The pipeline-description printer's fixed output: the CI pipeline that is
//! emitted for a loaded task pipeline.  Loading the input and serializing
//! the result are plain I/O and serialization and live outside the library.

use vstd::prelude::*;

use crate::buildkite;
use crate::buildkite::{DockerM, PluginM, StepM};
use crate::config::Config;
use crate::kv::{kv_map, kv_unique};
use crate::pipeline::Pipeline;

verus! {

/// The output format to print a pipeline in.
pub enum Mode {
    /// Emit a CI-backend pipeline description.
    Buildkite,
}

/// The docker plugin configuration of the emitted pipeline.
pub open spec fn emitted_docker() -> DockerM {
    DockerM {
        always_pull: true,
        environment: seq![
            "ANDROID_HOME"@,
            "ANDROID_NDK_HOME"@,
            "BUILDKITE_ARTIFACT_UPLOAD_DESTINATION"@,
        ],
        image: "gcr.io/bazel-public/ubuntu1804-java11"@,
        network: "host"@,
        privileged: true,
        propagate_environment: true,
        propagate_uid_gid: true,
        volumes: seq![
            "/etc/group:/etc/group:ro"@,
            "/etc/passwd:/etc/passwd:ro"@,
            "/opt:/opt:ro"@,
            "/var/lib/buildkite-agent:/var/lib/buildkite-agent"@,
            "/var/lib/gitmirrors:/var/lib/gitmirrors:ro"@,
            "/var/run/docker.sock:/var/run/docker.sock"@,
        ],
    }
}

/// Builds the CI pipeline description that is emitted for a loaded task
/// pipeline: one command step on the default queue, carrying the fixed
/// docker plugin.
pub fn emitted_buildkite_pipeline(pipeline: &Pipeline, config: &Config) -> (r:
    buildkite::Pipeline)
    ensures
        r@.agents.len() == 0,
        r@.env.len() == 0,
        r@.steps.len() == 1,
        (r@.steps[0] matches StepM::Command(c) && {
            &&& kv_unique(c.agents)
            &&& kv_map(c.agents) == Map::<Seq<char>, Seq<char>>::empty().insert(
                "queue"@,
                "default"@,
            )
            &&& c.command.len() == 0
            &&& c.commands.len() == 0
            &&& c.label.len() == 0
            &&& c.plugins =~= seq![PluginM { version: "3.8.0"@, properties: emitted_docker() }]
        }),
{
    let mut command = buildkite::Command::default();
    command.agent("queue", "default");
    let mut docker_plugin = buildkite::DockerPlugin::default();
    docker_plugin.always_pull(true);
    docker_plugin.environment("ANDROID_HOME");
    docker_plugin.environment("ANDROID_NDK_HOME");
    docker_plugin.environment("BUILDKITE_ARTIFACT_UPLOAD_DESTINATION");
    docker_plugin.network("host");
    docker_plugin.privileged(true);
    docker_plugin.propagate_environment(true);
    docker_plugin.propagate_uid_gid(true);
    docker_plugin.volume("/etc/group:/etc/group:ro");
    docker_plugin.volume("/etc/passwd:/etc/passwd:ro");
    docker_plugin.volume("/opt:/opt:ro");
    docker_plugin.volume("/var/lib/buildkite-agent:/var/lib/buildkite-agent");
    docker_plugin.volume("/var/lib/gitmirrors:/var/lib/gitmirrors:ro");
    docker_plugin.volume("/var/run/docker.sock:/var/run/docker.sock");
    docker_plugin.image("gcr.io/bazel-public/ubuntu1804-java11");
    proof {
        assert(docker_plugin@ =~= emitted_docker());
    }
    command.docker_plugin("3.8.0", docker_plugin);
    let ghost cm = command@;
    proof {
        assert(cm.plugins =~= seq![
            PluginM { version: "3.8.0"@, properties: emitted_docker() },
        ]);
        assert(kv_map(cm.agents) =~= Map::<Seq<char>, Seq<char>>::empty().insert(
            "queue"@,
            "default"@,
        ));
    }
    let mut buildkite_pipeline = buildkite::Pipeline::default();
    buildkite_pipeline.command_step(command);
    proof {
        assert(buildkite_pipeline@.steps =~= seq![StepM::Command(cm)]);
    }
    buildkite_pipeline
}

} // verus!

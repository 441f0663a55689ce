use bazelci_agent::buildkite;
use bazelci_agent::buildkite::{Plugin, Step};
use bazelci_agent::config::Config;
use bazelci_agent::pipeline::{Pipeline, Task};
use bazelci_agent::print::emitted_buildkite_pipeline;
use bazelci_agent::utils::split_path_inclusive;

#[test]
fn command_keeps_first_command_singular() {
    let mut command = buildkite::Command::default();
    assert!(command.is_empty());
    command.command("command.sh");
    assert!(!command.is_empty());
    assert_eq!(command.command, "command.sh");
    assert!(command.commands.is_empty());
}

#[test]
fn second_command_moves_both_into_the_list() {
    let mut command = buildkite::Command::default();
    command.command("command1.sh");
    command.command("command2.sh");
    assert_eq!(command.command, "");
    assert_eq!(command.commands, vec!["command1.sh", "command2.sh"]);
    command.command("command3.sh");
    assert_eq!(command.commands, vec!["command1.sh", "command2.sh", "command3.sh"]);
}

#[test]
fn agent_binding_replaces_earlier_value() {
    let mut pipeline = buildkite::Pipeline::default();
    pipeline.agent("queue", "default");
    pipeline.agent("queue", "special");
    assert_eq!(pipeline.agents, vec![("queue".to_string(), "special".to_string())]);
}

#[test]
fn docker_plugin_builder_sets_fields() {
    let mut plugin = buildkite::DockerPlugin::default();
    plugin.always_pull(true);
    plugin.environment("CC");
    plugin.image("gcr.io/bazel-public/ubuntu1804-java11");
    plugin.network("host");
    plugin.privileged(true);
    plugin.propagate_environment(true);
    plugin.propagate_uid_gid(true);
    plugin.volume("/etc/group:/etc/group:ro");
    assert!(plugin.always_pull);
    assert_eq!(plugin.environment, vec!["CC"]);
    assert_eq!(plugin.image, "gcr.io/bazel-public/ubuntu1804-java11");
    assert_eq!(plugin.network, "host");
    assert!(plugin.privileged && plugin.propagate_environment && plugin.propagate_uid_gid);
    assert_eq!(plugin.volumes, vec!["/etc/group:/etc/group:ro"]);

    let mut command = buildkite::Command::default();
    command.docker_plugin("3.8.0", plugin);
    assert_eq!(command.plugins.0.len(), 1);
    let Plugin::Docker { version, properties } = &command.plugins.0[0];
    assert_eq!(version.as_str(), "3.8.0");
    assert_eq!(properties.network, "host");
    assert!(!command.plugins.is_empty());
}

#[test]
fn emitted_pipeline_has_one_fixed_step() {
    let pipeline = Pipeline::default();
    let config = Config::default();
    let bk = emitted_buildkite_pipeline(&pipeline, &config);
    assert!(bk.agents.is_empty());
    assert!(bk.env.is_empty());
    assert_eq!(bk.steps.len(), 1);
    let Step::Command(c) = &bk.steps[0];
    assert_eq!(c.agents, vec![("queue".to_string(), "default".to_string())]);
    assert_eq!(c.command, "");
    assert!(c.commands.is_empty());
    let Plugin::Docker { version, properties } = &c.plugins.0[0];
    assert_eq!(version.as_str(), "3.8.0");
    assert_eq!(properties.image, "gcr.io/bazel-public/ubuntu1804-java11");
    assert_eq!(properties.volumes.len(), 6);
    assert_eq!(
        properties.environment,
        vec!["ANDROID_HOME", "ANDROID_NDK_HOME", "BUILDKITE_ARTIFACT_UPLOAD_DESTINATION"],
    );
}

#[test]
fn on_load_defaults_platform_to_task_name() {
    let mut pipeline = Pipeline::default();
    pipeline.task("ubuntu2004", Task::default());
    let mut windows = Task::default();
    windows.platform("windows-server");
    pipeline.task("windows", windows);
    pipeline.on_load();
    assert_eq!(pipeline.tasks.len(), 2);
    assert_eq!(pipeline.tasks[0].0, "ubuntu2004");
    assert_eq!(pipeline.tasks[0].1.platform, "ubuntu2004");
    assert_eq!(pipeline.tasks[1].0, "windows");
    assert_eq!(pipeline.tasks[1].1.platform, "windows-server");
}

#[test]
fn task_builder_collects_targets_and_env() {
    let mut task = Task::default();
    task.platform("ubuntu1804");
    task.environment("CC", "clang");
    task.environment("CC", "gcc");
    task.build_target("...");
    task.test_target("//pkg:t");
    assert_eq!(task.platform, "ubuntu1804");
    assert_eq!(task.environment, vec![("CC".to_string(), "gcc".to_string())]);
    assert_eq!(task.build_targets, vec!["..."]);
    assert_eq!(task.test_targets, vec!["//pkg:t"]);
}

#[test]
fn split_path_inclusive_splits_around_component() {
    let (first, second) = split_path_inclusive("a/b/c", "b").unwrap();
    assert_eq!(first, "a/b");
    assert_eq!(second, "c");
    let (first, second) = split_path_inclusive("a/b", "b").unwrap();
    assert_eq!(first, "a/b");
    assert_eq!(second, "");
    assert!(split_path_inclusive("a/b/c", "z").is_none());
    assert!(split_path_inclusive("a/bb/c", "b").is_none());
    let (first, second) = split_path_inclusive("x/y/x", "x").unwrap();
    assert_eq!(first, "x");
    assert_eq!(second, "y/x");
}

//! Builders for a CI pipeline description: a pipeline of command steps,
//! each with agents, commands, a label and docker plugins.  Turning a
//! built pipeline into YAML text is plain serialization with no logic and
//! lives outside the library.

use vstd::prelude::*;
use vstd::string::StrSliceExecFns;
use vstd::string::StringExecFns;

use crate::kv::{kv_insert, kv_map, kv_unique};

verus! {

/// Ghost model of a docker plugin configuration.
#[verifier::ext_equal]
pub struct DockerM {
    pub always_pull: bool,
    pub environment: Seq<Seq<char>>,
    pub image: Seq<char>,
    pub network: Seq<char>,
    pub privileged: bool,
    pub propagate_environment: bool,
    pub propagate_uid_gid: bool,
    pub volumes: Seq<Seq<char>>,
}

/// Configuration of the docker plugin of a command step.
pub struct DockerPlugin {
    pub always_pull: bool,
    pub environment: Vec<String>,
    pub image: String,
    pub network: String,
    pub privileged: bool,
    pub propagate_environment: bool,
    pub propagate_uid_gid: bool,
    pub volumes: Vec<String>,
}

impl View for DockerPlugin {
    type V = DockerM;

    open spec fn view(&self) -> DockerM {
        DockerM {
            always_pull: self.always_pull,
            environment: self.environment.deep_view(),
            image: self.image@,
            network: self.network@,
            privileged: self.privileged,
            propagate_environment: self.propagate_environment,
            propagate_uid_gid: self.propagate_uid_gid,
            volumes: self.volumes.deep_view(),
        }
    }
}

impl DeepView for DockerPlugin {
    type V = DockerM;

    open spec fn deep_view(&self) -> DockerM {
        self.view()
    }
}

/// Ghost model of one plugin entry.
#[verifier::ext_equal]
pub struct PluginM {
    pub version: Seq<char>,
    pub properties: DockerM,
}

/// One plugin entry of a command step.
pub enum Plugin {
    Docker { version: String, properties: DockerPlugin },
}

impl View for Plugin {
    type V = PluginM;

    closed spec fn view(&self) -> PluginM {
        match self {
            Plugin::Docker { version, properties } => PluginM {
                version: version@,
                properties: properties@,
            },
        }
    }
}

impl DeepView for Plugin {
    type V = PluginM;

    open spec fn deep_view(&self) -> PluginM {
        self.view()
    }
}

/// The plugins of a command step, in order.
pub struct Plugins(pub Vec<Plugin>);

impl View for Plugins {
    type V = Seq<PluginM>;

    closed spec fn view(&self) -> Seq<PluginM> {
        self.0.deep_view()
    }
}

impl Plugins {
    /// True when the step carries no plugin.
    pub fn is_empty(&self) -> (r: bool)
        ensures
            r == (self@.len() == 0),
    {
        self.0.len() == 0
    }
}

/// Ghost model of a command step.
#[verifier::ext_equal]
pub struct CommandM {
    pub agents: Seq<(Seq<char>, Seq<char>)>,
    pub command: Seq<char>,
    pub commands: Seq<Seq<char>>,
    pub label: Seq<char>,
    pub plugins: Seq<PluginM>,
}

/// Nothing but plugins was set on the step.
pub open spec fn command_is_empty(c: CommandM) -> bool {
    c.agents.len() == 0 && c.command.len() == 0 && c.commands.len() == 0 && c.label.len() == 0
}

/// Validity of a command step's model: its agents have unique keys.
pub open spec fn command_wf(c: CommandM) -> bool {
    kv_unique(c.agents)
}

/// One command step of a pipeline.
pub struct Command {
    pub agents: Vec<(String, String)>,
    pub command: String,
    pub commands: Vec<String>,
    pub label: String,
    pub plugins: Plugins,
}

impl View for Command {
    type V = CommandM;

    closed spec fn view(&self) -> CommandM {
        CommandM {
            agents: self.agents.deep_view(),
            command: self.command@,
            commands: self.commands.deep_view(),
            label: self.label@,
            plugins: self.plugins@,
        }
    }
}

/// Ghost model of one pipeline step.
#[verifier::ext_equal]
pub enum StepM {
    Command(CommandM),
}

/// One step of a pipeline.
pub enum Step {
    Command(Command),
}

impl View for Step {
    type V = StepM;

    open spec fn view(&self) -> StepM {
        match self {
            Step::Command(c) => StepM::Command(c@),
        }
    }
}

impl DeepView for Step {
    type V = StepM;

    open spec fn deep_view(&self) -> StepM {
        self.view()
    }
}

/// Ghost model of a pipeline description.
#[verifier::ext_equal]
pub struct PipelineM {
    pub agents: Seq<(Seq<char>, Seq<char>)>,
    pub env: Seq<(Seq<char>, Seq<char>)>,
    pub steps: Seq<StepM>,
}

/// Validity of a pipeline's model.
pub open spec fn pipeline_wf(p: PipelineM) -> bool {
    &&& kv_unique(p.agents)
    &&& kv_unique(p.env)
    &&& forall|i: int|
        0 <= i < p.steps.len() ==> command_wf(#[trigger] p.steps[i]->Command_0)
}

/// A CI pipeline description under construction.
pub struct Pipeline {
    pub agents: Vec<(String, String)>,
    pub env: Vec<(String, String)>,
    pub steps: Vec<Step>,
}

impl View for Pipeline {
    type V = PipelineM;

    closed spec fn view(&self) -> PipelineM {
        PipelineM {
            agents: self.agents.deep_view(),
            env: self.env.deep_view(),
            steps: self.steps.deep_view(),
        }
    }
}

impl Default for Pipeline {
    /// An empty pipeline.
    fn default() -> (r: Pipeline)
        ensures
            r@ == (PipelineM { agents: Seq::empty(), env: Seq::empty(), steps: Seq::empty() }),
            pipeline_wf(r@),
    {
        let r = Pipeline { agents: Vec::new(), env: Vec::new(), steps: Vec::new() };
        proof {
            assert(r@ =~= (PipelineM {
                agents: Seq::empty(),
                env: Seq::empty(),
                steps: Seq::empty(),
            }));
        }
        r
    }
}

impl Pipeline {
    /// Appends one command step.
    pub fn command_step(&mut self, command: Command)
        ensures
            final(self)@ == (PipelineM {
                steps: old(self)@.steps.push(StepM::Command(command@)),
                ..old(self)@
            }),
    {
        self.steps.push(Step::Command(command));
        proof {
            assert(self@ =~= (PipelineM {
                steps: old(self)@.steps.push(StepM::Command(command@)),
                ..old(self)@
            }));
        }
    }

    /// Binds one agent key to a value, replacing an earlier binding.
    pub fn agent(&mut self, key: &str, value: &str)
        requires
            kv_unique(old(self)@.agents),
        ensures
            kv_unique(final(self)@.agents),
            kv_map(final(self)@.agents) == kv_map(old(self)@.agents).insert(key@, value@),
            final(self)@.env == old(self)@.env,
            final(self)@.steps == old(self)@.steps,
    {
        kv_insert(&mut self.agents, key, value.to_owned());
    }
}

impl Default for Command {
    /// An empty command step.
    fn default() -> (r: Command)
        ensures
            r@ == (CommandM {
                agents: Seq::empty(),
                command: Seq::empty(),
                commands: Seq::empty(),
                label: Seq::empty(),
                plugins: Seq::empty(),
            }),
            command_wf(r@),
    {
        let r = Command {
            agents: Vec::new(),
            command: String::new(),
            commands: Vec::new(),
            label: String::new(),
            plugins: Plugins(Vec::new()),
        };
        proof {
            assert(r@ =~= (CommandM {
                agents: Seq::empty(),
                command: Seq::empty(),
                commands: Seq::empty(),
                label: Seq::empty(),
                plugins: Seq::empty(),
            }));
        }
        r
    }
}

impl Command {
    /// Binds one agent key to a value, replacing an earlier binding.
    pub fn agent(&mut self, key: &str, value: &str)
        requires
            kv_unique(old(self)@.agents),
        ensures
            kv_unique(final(self)@.agents),
            kv_map(final(self)@.agents) == kv_map(old(self)@.agents).insert(key@, value@),
            final(self)@.command == old(self)@.command,
            final(self)@.commands == old(self)@.commands,
            final(self)@.label == old(self)@.label,
            final(self)@.plugins == old(self)@.plugins,
    {
        kv_insert(&mut self.agents, key, value.to_owned());
    }

    /// Adds one command line.  The first command of an otherwise empty step
    /// is kept singular; later additions move it into the plural list and
    /// append there.
    pub fn command(&mut self, command: &str)
        ensures
            final(self)@.agents == old(self)@.agents,
            final(self)@.label == old(self)@.label,
            final(self)@.plugins == old(self)@.plugins,
            command_is_empty(old(self)@) ==> (final(self)@.command == command@
                && final(self)@.commands == old(self)@.commands),
            (!command_is_empty(old(self)@) && old(self)@.command.len() > 0) ==> (final(
                self)@.command.len() == 0 && final(self)@.commands == old(self)@.commands
                + seq![old(self)@.command, command@]),
            (!command_is_empty(old(self)@) && old(self)@.command.len() == 0) ==> (final(
                self)@.command == old(self)@.command && final(self)@.commands == old(
                self)@.commands.push(command@)),
    {
        if self.is_empty() {
            self.command = command.to_owned();
        } else {
            if !self.command.as_str().is_empty() {
                let first = self.command.clone();
                self.command = String::new();
                self.commands.push(first);
            }
            self.commands.push(command.to_owned());
            proof {
                if old(self)@.command.len() > 0 {
                    assert(self.commands.deep_view() =~= old(self)@.commands + seq![
                        old(self)@.command,
                        command@,
                    ]);
                } else {
                    assert(self.commands.deep_view() =~= old(self)@.commands.push(command@));
                }
            }
        }
    }

    /// Sets the step's label.
    pub fn label(&mut self, label: &str)
        ensures
            final(self)@ == (CommandM { label: label@, ..old(self)@ }),
    {
        self.label = label.to_owned();
        proof {
            assert(self@ =~= (CommandM { label: label@, ..old(self)@ }));
        }
    }

    /// Appends one docker plugin with its version.
    pub fn docker_plugin(&mut self, version: &str, plugin: DockerPlugin)
        ensures
            final(self)@ == (CommandM {
                plugins: old(self)@.plugins.push(
                    PluginM { version: version@, properties: plugin@ },
                ),
                ..old(self)@
            }),
    {
        let ghost p = plugin@;
        self.plugins.0.push(Plugin::Docker { version: version.to_owned(), properties: plugin });
        proof {
            assert(self.plugins@ =~= old(self)@.plugins.push(
                PluginM { version: version@, properties: p },
            ));
            assert(self@ =~= (CommandM {
                plugins: old(self)@.plugins.push(PluginM { version: version@, properties: p }),
                ..old(self)@
            }));
        }
    }

    /// True when nothing was set on the step but possibly plugins.
    pub fn is_empty(&self) -> (r: bool)
        ensures
            r == command_is_empty(self@),
    {
        self.agents.len() == 0 && self.command.as_str().is_empty() && self.commands.len() == 0
            && self.label.as_str().is_empty()
    }
}

impl Default for DockerPlugin {
    /// A docker plugin configuration with everything off and empty.
    fn default() -> (r: DockerPlugin)
        ensures
            r@ == (DockerM {
                always_pull: false,
                environment: Seq::empty(),
                image: Seq::empty(),
                network: Seq::empty(),
                privileged: false,
                propagate_environment: false,
                propagate_uid_gid: false,
                volumes: Seq::empty(),
            }),
    {
        let r = DockerPlugin {
            always_pull: false,
            environment: Vec::new(),
            image: String::new(),
            network: String::new(),
            privileged: false,
            propagate_environment: false,
            propagate_uid_gid: false,
            volumes: Vec::new(),
        };
        proof {
            assert(r@ =~= (DockerM {
                always_pull: false,
                environment: Seq::empty(),
                image: Seq::empty(),
                network: Seq::empty(),
                privileged: false,
                propagate_environment: false,
                propagate_uid_gid: false,
                volumes: Seq::empty(),
            }));
        }
        r
    }
}

impl DockerPlugin {
    /// Sets whether the image is always pulled.
    pub fn always_pull(&mut self, always_pull: bool)
        ensures
            final(self)@ == (DockerM { always_pull, ..old(self)@ }),
    {
        self.always_pull = always_pull;
        proof {
            assert(self@ =~= (DockerM { always_pull, ..old(self)@ }));
        }
    }

    /// Appends one propagated environment variable.
    pub fn environment(&mut self, env: &str)
        ensures
            final(self)@ == (DockerM {
                environment: old(self)@.environment.push(env@),
                ..old(self)@
            }),
    {
        self.environment.push(env.to_owned());
        proof {
            assert(self@ =~= (DockerM {
                environment: old(self)@.environment.push(env@),
                ..old(self)@
            }));
        }
    }

    /// Sets the image.
    pub fn image(&mut self, image: &str)
        ensures
            final(self)@ == (DockerM { image: image@, ..old(self)@ }),
    {
        self.image = image.to_owned();
        proof {
            assert(self@ =~= (DockerM { image: image@, ..old(self)@ }));
        }
    }

    /// Sets the network.
    pub fn network(&mut self, network: &str)
        ensures
            final(self)@ == (DockerM { network: network@, ..old(self)@ }),
    {
        self.network = network.to_owned();
        proof {
            assert(self@ =~= (DockerM { network: network@, ..old(self)@ }));
        }
    }

    /// Sets whether the container is privileged.
    pub fn privileged(&mut self, privileged: bool)
        ensures
            final(self)@ == (DockerM { privileged, ..old(self)@ }),
    {
        self.privileged = privileged;
        proof {
            assert(self@ =~= (DockerM { privileged, ..old(self)@ }));
        }
    }

    /// Sets whether the host environment is propagated.
    pub fn propagate_environment(&mut self, propagate_environment: bool)
        ensures
            final(self)@ == (DockerM { propagate_environment, ..old(self)@ }),
    {
        self.propagate_environment = propagate_environment;
        proof {
            assert(self@ =~= (DockerM { propagate_environment, ..old(self)@ }));
        }
    }

    /// Sets whether uid and gid are propagated.
    pub fn propagate_uid_gid(&mut self, propagate_uid_gid: bool)
        ensures
            final(self)@ == (DockerM { propagate_uid_gid, ..old(self)@ }),
    {
        self.propagate_uid_gid = propagate_uid_gid;
        proof {
            assert(self@ =~= (DockerM { propagate_uid_gid, ..old(self)@ }));
        }
    }

    /// Appends one volume binding.
    pub fn volume(&mut self, volume: &str)
        ensures
            final(self)@ == (DockerM { volumes: old(self)@.volumes.push(volume@), ..old(self)@ }),
    {
        self.volumes.push(volume.to_owned());
        proof {
            assert(self@ =~= (DockerM {
                volumes: old(self)@.volumes.push(volume@),
                ..old(self)@
            }));
        }
    }
}

} // verus!

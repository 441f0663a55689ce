//! The declarative task-pipeline configuration: named tasks with a
//! platform, environment variables and build/test targets.  Reading such a
//! pipeline from YAML text is plain deserialization and lives outside the
//! library; the loaded data is handed in and normalized here.

use vstd::prelude::*;
use vstd::string::StrSliceExecFns;
use vstd::string::StringExecFns;

use crate::kv::{kv_insert, kv_map, kv_unique};

verus! {

/// Ghost model of one task.
#[verifier::ext_equal]
pub struct TaskM {
    pub platform: Seq<char>,
    pub environment: Seq<(Seq<char>, Seq<char>)>,
    pub build_targets: Seq<Seq<char>>,
    pub test_targets: Seq<Seq<char>>,
}

/// One task of a pipeline.
pub struct Task {
    pub platform: String,
    pub environment: Vec<(String, String)>,
    pub build_targets: Vec<String>,
    pub test_targets: Vec<String>,
}

impl View for Task {
    type V = TaskM;

    closed spec fn view(&self) -> TaskM {
        TaskM {
            platform: self.platform@,
            environment: self.environment.deep_view(),
            build_targets: self.build_targets.deep_view(),
            test_targets: self.test_targets.deep_view(),
        }
    }
}

impl DeepView for Task {
    type V = TaskM;

    open spec fn deep_view(&self) -> TaskM {
        self.view()
    }
}

impl Default for Task {
    /// An empty task.
    fn default() -> (r: Task)
        ensures
            r@ == (TaskM {
                platform: Seq::empty(),
                environment: Seq::empty(),
                build_targets: Seq::empty(),
                test_targets: Seq::empty(),
            }),
            kv_unique(r@.environment),
    {
        let r = Task {
            platform: String::new(),
            environment: Vec::new(),
            build_targets: Vec::new(),
            test_targets: Vec::new(),
        };
        proof {
            assert(r@ =~= (TaskM {
                platform: Seq::empty(),
                environment: Seq::empty(),
                build_targets: Seq::empty(),
                test_targets: Seq::empty(),
            }));
        }
        r
    }
}

impl Task {
    /// Sets the platform.
    pub fn platform(&mut self, platform: &str)
        ensures
            final(self)@ == (TaskM { platform: platform@, ..old(self)@ }),
    {
        self.platform = platform.to_owned();
        proof {
            assert(self@ =~= (TaskM { platform: platform@, ..old(self)@ }));
        }
    }

    /// Binds one environment variable, replacing an earlier binding.
    pub fn environment(&mut self, key: &str, value: &str)
        requires
            kv_unique(old(self)@.environment),
        ensures
            kv_unique(final(self)@.environment),
            kv_map(final(self)@.environment) == kv_map(old(self)@.environment).insert(
                key@,
                value@,
            ),
            final(self)@.platform == old(self)@.platform,
            final(self)@.build_targets == old(self)@.build_targets,
            final(self)@.test_targets == old(self)@.test_targets,
    {
        kv_insert(&mut self.environment, key, value.to_owned());
    }

    /// Appends one build target.
    pub fn build_target(&mut self, target: &str)
        ensures
            final(self)@ == (TaskM {
                build_targets: old(self)@.build_targets.push(target@),
                ..old(self)@
            }),
    {
        self.build_targets.push(target.to_owned());
        proof {
            assert(self@ =~= (TaskM {
                build_targets: old(self)@.build_targets.push(target@),
                ..old(self)@
            }));
        }
    }

    /// Appends one test target.
    pub fn test_target(&mut self, target: &str)
        ensures
            final(self)@ == (TaskM {
                test_targets: old(self)@.test_targets.push(target@),
                ..old(self)@
            }),
    {
        self.test_targets.push(target.to_owned());
        proof {
            assert(self@ =~= (TaskM {
                test_targets: old(self)@.test_targets.push(target@),
                ..old(self)@
            }));
        }
    }
}

/// A task pipeline: named tasks with unique names.
pub struct Pipeline {
    pub tasks: Vec<(String, Task)>,
}

impl View for Pipeline {
    type V = Seq<(Seq<char>, TaskM)>;

    closed spec fn view(&self) -> Seq<(Seq<char>, TaskM)> {
        self.tasks.deep_view()
    }
}

impl Default for Pipeline {
    /// An empty pipeline.
    fn default() -> (r: Pipeline)
        ensures
            r@ == Seq::<(Seq<char>, TaskM)>::empty(),
    {
        let r = Pipeline { tasks: Vec::new() };
        proof {
            assert(r@ =~= Seq::<(Seq<char>, TaskM)>::empty());
        }
        r
    }
}

/// The platform a loaded task ends up with: its own, or its name when its
/// own is empty.
pub open spec fn loaded_task(name: Seq<char>, t: TaskM) -> TaskM {
    TaskM {
        platform: if t.platform.len() == 0 {
            name
        } else {
            t.platform
        },
        ..t
    }
}

impl Pipeline {
    /// Binds one named task, replacing an earlier task of that name.
    pub fn task(&mut self, name: &str, task: Task)
        requires
            kv_unique(old(self)@),
        ensures
            kv_unique(final(self)@),
            kv_map(final(self)@) == kv_map(old(self)@).insert(name@, task@),
    {
        kv_insert(&mut self.tasks, name, task);
    }

    /// Normalizes a freshly loaded pipeline: every task whose platform is
    /// empty takes its own name as platform.
    pub fn on_load(&mut self)
        ensures
            final(self)@.len() == old(self)@.len(),
            forall|i: int|
                0 <= i < old(self)@.len() ==> #[trigger] final(self)@[i] == (
                old(self)@[i].0,
                loaded_task(old(self)@[i].0, old(self)@[i].1),
                ),
    {
        let ghost orig = self.tasks.deep_view();
        let mut rebuilt: Vec<(String, Task)> = Vec::new();
        while self.tasks.len() > 0
            invariant
                rebuilt@.len() + self.tasks@.len() == orig.len(),
                self.tasks.deep_view() == orig.skip(rebuilt@.len() as int),
                forall|i: int|
                    0 <= i < rebuilt@.len() ==> #[trigger] rebuilt.deep_view()[i] == (
                    orig[i].0,
                    loaded_task(orig[i].0, orig[i].1),
                    ),
            decreases self.tasks.len(),
        {
            let ghost k = rebuilt@.len() as int;
            let ghost tv = self.tasks@;
            let (name, mut task) = self.tasks.remove(0);
            proof {
                assert(orig.skip(k)[0] == tv[0].deep_view());
                assert(tv[0].deep_view() == (name@, task@));
                assert(self.tasks.deep_view() =~= orig.skip(k + 1)) by {
                    assert(self.tasks@ == tv.remove(0));
                    assert forall|j: int|
                        0 <= j < self.tasks@.len() implies self.tasks.deep_view()[j] == orig.skip(
                        k + 1,
                    )[j] by {
                        assert(self.tasks@[j] == tv[j + 1]);
                        assert(self.tasks.deep_view()[j] == tv[j + 1].deep_view());
                        assert(orig.skip(k)[j + 1] == tv[j + 1].deep_view());
                        assert(orig.skip(k)[j + 1] == orig[k + j + 1]);
                        assert(orig.skip(k + 1)[j] == orig[k + 1 + j]);
                    }
                }
            }
            if task.platform.as_str().is_empty() {
                task.platform = name.clone();
                proof {
                    assert(task@ =~= loaded_task(orig[k].0, orig[k].1));
                }
            } else {
                proof {
                    assert(task@ =~= loaded_task(orig[k].0, orig[k].1));
                }
            }
            let ghost rb = rebuilt.deep_view();
            rebuilt.push((name, task));
            proof {
                assert(rebuilt.deep_view() =~= rb.push((name@, task@)));
                assert(name@ == orig[k].0);
                assert(rebuilt.deep_view()[k] == (orig[k].0, loaded_task(orig[k].0, orig[k].1)));
            }
        }
        self.tasks = rebuilt;
        proof {
            assert(self.tasks.deep_view() == rebuilt.deep_view());
        }
    }
}

} // verus!

//! The guest's bookkeeping for task hooks whose events come from the host.
//!
//! The host reports each task's spawn, polls and termination; the guest keeps
//! where each task was spawned until its last event, and says which of the
//! user's hooks runs for an event.
use vstd::prelude::*;

use std::collections::HashMap;

use crate::abi::SourceLocation;

verus! {

broadcast use vstd::std_specs::hash::group_hash_axioms;

/// An event of a task's life that the host reports.
#[derive(Clone, Copy, Debug, PartialEq, Eq, Structural)]
pub enum TaskEvent {
    Spawn,
    PollStart,
    PollStop,
    Terminate,
}

/// Which of the user's hooks are installed.
#[derive(Clone, Copy, Debug, PartialEq, Eq, Structural)]
pub struct HookSet {
    pub spawn: bool,
    pub terminate: bool,
    pub before_poll: bool,
    pub after_poll: bool,
}

/// One of the user's hooks.
#[derive(Clone, Copy, Debug, PartialEq, Eq, Structural)]
pub enum Hook {
    Spawn,
    BeforePoll,
    AfterPoll,
    Terminate,
}

/// What the guest knows of a task that the host reports on.
#[derive(Clone, Copy)]
pub struct TaskHookState {
    pub location: SourceLocation,
    pub polling: bool,
    pub terminated: bool,
}

/// The hook to run for an event, with the task it concerns.
#[derive(Clone, Copy)]
pub struct HookCall {
    pub hook: Option<Hook>,
    pub id: u64,
    pub spawned_at: SourceLocation,
}

pub struct HostTaskHooks {
    hooks: HookSet,
    tasks: HashMap<u64, TaskHookState>,
    active: bool,
}

pub open spec fn spec_hooks_active(hooks: HookSet) -> bool {
    hooks.spawn || hooks.terminate || hooks.before_poll || hooks.after_poll
}

/// The hook that an event runs, when it is installed.
pub open spec fn hook_for(hooks: HookSet, event: TaskEvent) -> Option<Hook> {
    match event {
        TaskEvent::Spawn => if hooks.spawn {
            Some(Hook::Spawn)
        } else {
            None
        },
        TaskEvent::PollStart => if hooks.before_poll {
            Some(Hook::BeforePoll)
        } else {
            None
        },
        TaskEvent::PollStop => if hooks.after_poll {
            Some(Hook::AfterPoll)
        } else {
            None
        },
        TaskEvent::Terminate => if hooks.terminate {
            Some(Hook::Terminate)
        } else {
            None
        },
    }
}

/// A task's state after an event.
pub open spec fn after_event(state: TaskHookState, event: TaskEvent) -> TaskHookState {
    match event {
        TaskEvent::PollStart => TaskHookState { polling: true, ..state },
        TaskEvent::PollStop => TaskHookState { polling: false, ..state },
        TaskEvent::Terminate => TaskHookState { terminated: true, ..state },
        TaskEvent::Spawn => state,
    }
}

/// A task is done with once it has terminated and no poll of it is running.
pub open spec fn finished(state: TaskHookState) -> bool {
    state.terminated && !state.polling
}

/// The tasks after an event for `id`: a finished task is forgotten.
pub open spec fn tasks_after(
    tasks: Map<u64, TaskHookState>,
    id: u64,
    event: TaskEvent,
) -> Map<u64, TaskHookState> {
    let state = after_event(tasks[id], event);
    if finished(state) {
        tasks.remove(id)
    } else {
        tasks.insert(id, state)
    }
}

impl HostTaskHooks {
    pub closed spec fn spec_hooks(&self) -> HookSet {
        self.hooks
    }

    pub closed spec fn spec_tasks(&self) -> Map<u64, TaskHookState> {
        self.tasks@
    }

    pub closed spec fn spec_active(&self) -> bool {
        self.active
    }

    /// Hooks are tracked exactly when one is installed, and no finished task is kept.
    pub open spec fn wf(&self) -> bool {
        &&& self.spec_active() == spec_hooks_active(self.spec_hooks())
        &&& forall|id: u64| #[trigger]
            self.spec_tasks().contains_key(id) ==> !finished(self.spec_tasks()[id])
    }

    /// Whether any hook is installed.
    pub fn hooks_active(hooks: &HookSet) -> (r: bool)
        ensures
            r == spec_hooks_active(*hooks),
    {
        hooks.spawn || hooks.terminate || hooks.before_poll || hooks.after_poll
    }

    pub fn new(hooks: HookSet) -> (r: Self)
        ensures
            r.wf(),
            r.spec_hooks() == hooks,
            r.spec_tasks() == Map::<u64, TaskHookState>::empty(),
    {
        let active = Self::hooks_active(&hooks);
        HostTaskHooks { hooks, tasks: HashMap::new(), active }
    }

    /// No hooks installed.
    pub fn empty() -> (r: Self)
        ensures
            r.wf(),
            r.spec_hooks() == (HookSet {
                spawn: false,
                terminate: false,
                before_poll: false,
                after_poll: false,
            }),
            !r.spec_active(),
            r.spec_tasks() == Map::<u64, TaskHookState>::empty(),
    {
        Self::new(HookSet { spawn: false, terminate: false, before_poll: false, after_poll: false })
    }

    /// Whether the host is handed a callback for task events: only when some hook is installed.
    pub fn callback(&self) -> (r: bool)
        ensures
            r == self.spec_active(),
    {
        self.active
    }

    /// Starts tracking a spawned task; nothing happens when no hook is installed.
    pub fn register(&mut self, id: u64, location: SourceLocation)
        requires
            old(self).wf(),
            old(self).spec_active() ==> !old(self).spec_tasks().contains_key(id),
        ensures
            final(self).wf(),
            final(self).spec_hooks() == old(self).spec_hooks(),
            final(self).spec_tasks() == (if old(self).spec_active() {
                old(self).spec_tasks().insert(
                    id,
                    TaskHookState { location, polling: false, terminated: false },
                )
            } else {
                old(self).spec_tasks()
            }),
    {
        if !self.active {
            return;
        }
        self.tasks.insert(id, TaskHookState { location, polling: false, terminated: false });
    }

    /// Stops tracking a task.
    pub fn remove(&mut self, id: u64)
        requires
            old(self).wf(),
        ensures
            final(self).wf(),
            final(self).spec_hooks() == old(self).spec_hooks(),
            final(self).spec_tasks() == (if old(self).spec_active() {
                old(self).spec_tasks().remove(id)
            } else {
                old(self).spec_tasks()
            }),
    {
        if self.active {
            let ghost before = self.tasks@;
            self.tasks.remove(&id);
            assert(self.tasks@ == before.remove(id));
            assert forall|k: u64| #[trigger] self.tasks@.contains_key(k) implies !finished(
                self.tasks@[k],
            ) by {
                assert(old(self).spec_tasks().contains_key(k));
            }
        }
    }

    /// Records an event of a tracked task and says which hook runs for it.
    pub fn call(&mut self, event: TaskEvent, id: u64) -> (r: HookCall)
        requires
            old(self).wf(),
            id != 0,
            old(self).spec_tasks().contains_key(id),
        ensures
            final(self).wf(),
            final(self).spec_hooks() == old(self).spec_hooks(),
            final(self).spec_tasks() == tasks_after(old(self).spec_tasks(), id, event),
            r.id == id,
            r.spawned_at == old(self).spec_tasks()[id].location,
            r.hook == hook_for(old(self).spec_hooks(), event),
    {
        let ghost before = self.tasks@;
        let current = *self.tasks.get(&id).unwrap();
        assert(current == before[id]);
        let mut state = current;
        match event {
            TaskEvent::PollStart => state.polling = true,
            TaskEvent::PollStop => state.polling = false,
            TaskEvent::Terminate => state.terminated = true,
            TaskEvent::Spawn => {},
        }
        assert(state == after_event(before[id], event));
        if state.terminated && !state.polling {
            self.tasks.remove(&id);
        } else {
            self.tasks.insert(id, state);
        }
        let hook = match event {
            TaskEvent::Spawn => if self.hooks.spawn {
                Some(Hook::Spawn)
            } else {
                None
            },
            TaskEvent::PollStart => if self.hooks.before_poll {
                Some(Hook::BeforePoll)
            } else {
                None
            },
            TaskEvent::PollStop => if self.hooks.after_poll {
                Some(Hook::AfterPoll)
            } else {
                None
            },
            TaskEvent::Terminate => if self.hooks.terminate {
                Some(Hook::Terminate)
            } else {
                None
            },
        };
        HookCall { hook, id, spawned_at: current.location }
    }
}

} // verus!

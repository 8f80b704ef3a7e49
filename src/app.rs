use vstd::prelude::*;

use crate::doc::Value;
use crate::task::{empty_task, Task, TaskView};
use crate::text::{pop_char, push_char, without_last};

verus! {

/// Whether the main loop is starting, running or asked to stop.
#[derive(PartialEq, Eq, Structural, Debug, Clone, Copy)]
pub enum State {
    Enter,
    Main,
    Exit,
}

/// The field being authored while a task is created; `Null` when none is.
#[derive(PartialEq, Eq, Structural, Debug, Clone, Copy)]
pub enum CreationState {
    Taskname,
    Envname,
    Dir,
    Yaml,
    Null,
}

/// The stage after `s` in the cycle name, environment, directory, document.
pub open spec fn next_stage(s: CreationState) -> CreationState {
    match s {
        CreationState::Taskname => CreationState::Envname,
        CreationState::Envname => CreationState::Dir,
        CreationState::Dir => CreationState::Yaml,
        CreationState::Yaml => CreationState::Taskname,
        CreationState::Null => CreationState::Null,
    }
}

/// The stage before `s` in the same cycle.
pub open spec fn prev_stage(s: CreationState) -> CreationState {
    match s {
        CreationState::Taskname => CreationState::Yaml,
        CreationState::Envname => CreationState::Taskname,
        CreationState::Dir => CreationState::Envname,
        CreationState::Yaml => CreationState::Dir,
        CreationState::Null => CreationState::Null,
    }
}

/// Four steps forward come back to the same stage, and a step back undoes a step
/// forward.
pub proof fn lemma_stage_cycle(s: CreationState)
    ensures
        next_stage(next_stage(next_stage(next_stage(s)))) == s,
        prev_stage(next_stage(s)) == s,
        next_stage(prev_stage(s)) == s,
{
}

/// The queue of tasks and the task being authored.
pub struct App {
    state: State,
    creation_state: CreationState,
    task_queue: Vec<Task>,
    template_task: Option<Task>,
}

pub struct AppView {
    pub state: State,
    pub creation_state: CreationState,
    pub queue: Seq<TaskView>,
    pub template: Option<TaskView>,
}

pub open spec fn opt_task(t: Option<Task>) -> Option<TaskView> {
    match t {
        Some(t) => Some(t@),
        None => None,
    }
}

/// `t` after the character `c` is typed while `s` is the active stage: only the
/// field of that stage grows.
pub open spec fn typed_into(t: TaskView, s: CreationState, c: char) -> TaskView {
    match s {
        CreationState::Taskname => TaskView { name: t.name.push(c), ..t },
        CreationState::Envname => TaskView { environment: t.environment.push(c), ..t },
        CreationState::Dir => TaskView { directory: t.directory.push(c), ..t },
        _ => t,
    }
}

/// `t` after a backspace while `s` is the active stage.
pub open spec fn erased_from(t: TaskView, s: CreationState) -> TaskView {
    match s {
        CreationState::Taskname => TaskView { name: without_last(t.name), ..t },
        CreationState::Envname => TaskView { environment: without_last(t.environment), ..t },
        CreationState::Dir => TaskView { directory: without_last(t.directory), ..t },
        _ => t,
    }
}

pub open spec fn map_template(a: AppView, t: Option<TaskView>) -> AppView {
    AppView { template: t, ..a }
}

pub open spec fn app_typed(a: AppView, c: char) -> AppView {
    match a.template {
        Some(t) => map_template(a, Some(typed_into(t, a.creation_state, c))),
        None => a,
    }
}

pub open spec fn app_erased(a: AppView) -> AppView {
    match a.template {
        Some(t) => map_template(a, Some(erased_from(t, a.creation_state))),
        None => a,
    }
}

pub open spec fn app_staged(a: AppView, s: CreationState) -> AppView {
    AppView { creation_state: s, ..a }
}

/// Authoring begins: a fresh empty task, at the name stage.
pub open spec fn app_begun(a: AppView) -> AppView {
    AppView { creation_state: CreationState::Taskname, template: Some(empty_task()), ..a }
}

/// The names of the queued tasks, in order.
pub open spec fn queue_names(q: Seq<TaskView>) -> Seq<Seq<char>> {
    q.map_values(|t: TaskView| t.name)
}

/// The authored task, if any, goes to the tail of the queue.
pub open spec fn app_committed(a: AppView) -> AppView {
    match a.template {
        Some(t) => AppView { queue: a.queue.push(t), template: None, ..a },
        None => a,
    }
}

/// The authored task, if any, gets the document `d`.
pub open spec fn app_with_yaml(a: AppView, d: crate::doc::Tree) -> AppView {
    match a.template {
        Some(t) => map_template(a, Some(TaskView { yaml: Some(d), ..t })),
        None => a,
    }
}

/// Index of the first task named `name`.
pub open spec fn is_first_named(q: Seq<TaskView>, name: Seq<char>, i: int) -> bool {
    0 <= i < q.len() && q[i].name == name && forall|j: int| 0 <= j < i ==> q[j].name != name
}

impl View for App {
    type V = AppView;

    closed spec fn view(&self) -> AppView {
        AppView {
            state: self.state,
            creation_state: self.creation_state,
            queue: self.task_queue@.map_values(|t: Task| t@),
            template: opt_task(self.template_task),
        }
    }
}

impl App {
    pub fn new_app() -> (r: Self)
        ensures
            r@.state == State::Enter,
            r@.creation_state == CreationState::Null,
            r@.queue.len() == 0,
            r@.template is None,
    {
        Self {
            state: State::Enter,
            creation_state: CreationState::Null,
            task_queue: Vec::new(),
            template_task: None,
        }
    }

    pub fn task_queue_is_empty(&self) -> (r: bool)
        ensures
            r == (self@.queue.len() == 0),
    {
        self.task_queue.len() == 0
    }

    /// Removes and returns the head of the queue.
    pub fn pop_first_task(&mut self) -> (r: Option<Task>)
        ensures
            old(self)@.queue.len() == 0 ==> r is None && final(self)@ == old(self)@,
            old(self)@.queue.len() > 0 ==> (r matches Some(t) && t@ == old(self)@.queue[0]
                && final(self)@ == (AppView { queue: old(self)@.queue.skip(1), ..old(self)@ })),
    {
        if self.task_queue.len() > 0 {
            let ghost before = self.task_queue@;
            let t = self.task_queue.remove(0);
            proof {
                assert(self.task_queue@.map_values(|t: Task| t@) =~= before.map_values(
                    |t: Task| t@,
                ).skip(1));
            }
            Some(t)
        } else {
            None
        }
    }

    /// Attaches `yaml` to the task being authored, if there is one.
    pub fn set_yaml(&mut self, yaml: Value)
        ensures
            final(self)@ == app_with_yaml(old(self)@, yaml@),
    {
        match self.template_task.take() {
            Some(mut task) => {
                task.set_yaml(yaml);
                self.template_task = Some(task);
            },
            None => {},
        }
    }

    pub fn get_state(&self) -> (r: &State)
        ensures
            *r == self@.state,
    {
        &self.state
    }

    pub fn get_creation_state(&self) -> (r: &CreationState)
        ensures
            *r == self@.creation_state,
    {
        &self.creation_state
    }

    pub fn set_state(&mut self, state: State)
        ensures
            final(self)@ == (AppView { state: state, ..old(self)@ }),
    {
        self.state = state;
    }

    pub fn set_creation_state(&mut self, state: CreationState)
        ensures
            final(self)@ == app_staged(old(self)@, state),
    {
        self.creation_state = state;
    }

    /// Begins authoring: a fresh empty task, at the name stage.
    pub fn create_new_template_task(&mut self)
        ensures
            final(self)@ == app_begun(old(self)@),
    {
        self.creation_state = CreationState::Taskname;
        let temp_task = Task::new();
        self.template_task = Some(temp_task);
    }

    /// The environment and directory of the first queued task named `task_name`.
    pub fn get_task_info(&self, task_name: &str) -> (r: Option<(&str, &str)>)
        ensures
            match r {
                Some((env, dir)) => exists|i: int|
                    is_first_named(self@.queue, task_name@, i) && env@ == self@.queue[i].environment
                        && dir@ == self@.queue[i].directory,
                None => forall|i: int|
                    0 <= i < self@.queue.len() ==> self@.queue[i].name != task_name@,
            },
    {
        let wanted = String::from_str(task_name);
        let mut i: usize = 0;
        while i < self.task_queue.len()
            invariant
                i <= self.task_queue.len(),
                wanted@ == task_name@,
                self@.queue.len() == self.task_queue@.len(),
                forall|j: int| 0 <= j < i ==> self@.queue[j].name != task_name@,
            decreases self.task_queue.len() - i,
        {
            let task = &self.task_queue[i];
            let name = String::from_str(task.get_task_name());
            if name == wanted {
                let r = (task.get_environment(), task.get_directory());
                assert(is_first_named(self@.queue, task_name@, i as int));
                return Some(r);
            }
            i = i + 1;
        }
        None
    }

    /// Commits the task being authored to the tail of the queue.
    pub fn pass_template_to_task_list(&mut self)
        ensures
            final(self)@ == app_committed(old(self)@),
    {
        match self.template_task.take() {
            Some(task) => self.add_task_to_queue(task),
            None => (),
        }
        self.template_task = None;
    }

    /// The names of the queued tasks, in queue order.
    pub fn get_task_queue_names(&self) -> (r: Vec<&str>)
        ensures
            r@.len() == self@.queue.len(),
            forall|i: int| 0 <= i < r@.len() ==> (#[trigger] r@[i])@ == self@.queue[i].name,
    {
        let mut task_queue_names: Vec<&str> = Vec::new();
        let mut i: usize = 0;
        while i < self.task_queue.len()
            invariant
                i <= self.task_queue.len(),
                self@.queue.len() == self.task_queue@.len(),
                task_queue_names@.len() == i,
                forall|j: int|
                    0 <= j < i ==> (#[trigger] task_queue_names@[j])@ == self@.queue[j].name,
            decreases self.task_queue.len() - i,
        {
            task_queue_names.push(self.task_queue[i].get_task_name());
            i = i + 1;
        }
        task_queue_names
    }

    /// Appends `task` at the tail of the queue.
    pub fn add_task_to_queue(&mut self, task: Task)
        ensures
            final(self)@ == (AppView { queue: old(self)@.queue.push(task@), ..old(self)@ }),
    {
        let ghost before = self.task_queue@;
        self.task_queue.push(task);
        proof {
            assert(self.task_queue@.map_values(|t: Task| t@) =~= before.map_values(
                |t: Task| t@,
            ).push(task@));
        }
    }

    /// Takes the task being authored out, leaving none.
    pub fn task_template_task(&mut self) -> (r: Option<Task>)
        ensures
            opt_task(r) == old(self)@.template,
            final(self)@ == map_template(old(self)@, None),
    {
        self.template_task.take()
    }

    pub fn read_template_task(&self) -> (r: &Option<Task>)
        ensures
            opt_task(*r) == self@.template,
    {
        &self.template_task
    }

    /// Types `c` into the field of the active stage of the task being authored.
    pub fn write_to_buffer(&mut self, c: char)
        ensures
            final(self)@ == app_typed(old(self)@, c),
    {
        let creation_state = self.creation_state;
        match self.template_task.take() {
            Some(mut task) => {
                if creation_state == CreationState::Taskname {
                    let mut name = String::from_str(task.get_task_name());
                    push_char(&mut name, c);
                    task.set_task_name(name);
                } else if creation_state == CreationState::Envname {
                    let mut env_name = String::from_str(task.get_environment());
                    push_char(&mut env_name, c);
                    task.set_environment(env_name);
                } else if creation_state == CreationState::Dir {
                    let mut directory = String::from_str(task.get_directory());
                    push_char(&mut directory, c);
                    task.set_directory(directory);
                }
                self.template_task = Some(task);
            },
            None => {},
        }
    }

    /// Moves to the next stage of the cycle.
    pub fn move_down_fsm(&mut self)
        ensures
            final(self)@ == app_staged(old(self)@, next_stage(old(self)@.creation_state)),
    {
        match self.creation_state {
            CreationState::Taskname => self.creation_state = CreationState::Envname,
            CreationState::Envname => self.creation_state = CreationState::Dir,
            CreationState::Dir => self.creation_state = CreationState::Yaml,
            CreationState::Yaml => self.creation_state = CreationState::Taskname,
            CreationState::Null => (),
        }
    }

    pub fn is_yaml_state(&self) -> (r: bool)
        ensures
            r == (self@.creation_state == CreationState::Yaml),
    {
        self.creation_state == CreationState::Yaml
    }

    /// Moves to the previous stage of the cycle.
    pub fn move_up_fsm(&mut self)
        ensures
            final(self)@ == app_staged(old(self)@, prev_stage(old(self)@.creation_state)),
    {
        match self.creation_state {
            CreationState::Taskname => self.creation_state = CreationState::Yaml,
            CreationState::Envname => self.creation_state = CreationState::Taskname,
            CreationState::Dir => self.creation_state = CreationState::Envname,
            CreationState::Yaml => self.creation_state = CreationState::Dir,
            CreationState::Null => (),
        }
    }

    /// Removes the last character of the field of the active stage.
    pub fn pop_last_elem_from_buffer(&mut self)
        ensures
            final(self)@ == app_erased(old(self)@),
    {
        let creation_state = self.creation_state;
        match self.template_task.take() {
            Some(mut task) => {
                if creation_state == CreationState::Taskname {
                    let mut name = String::from_str(task.get_task_name());
                    pop_char(&mut name);
                    task.set_task_name(name);
                } else if creation_state == CreationState::Envname {
                    let mut env = String::from_str(task.get_environment());
                    pop_char(&mut env);
                    task.set_environment(env);
                } else if creation_state == CreationState::Dir {
                    let mut dir = String::from_str(task.get_directory());
                    pop_char(&mut dir);
                    task.set_directory(dir);
                }
                self.template_task = Some(task);
            },
            None => {},
        }
    }
}

} // verus!

verus! {

/// The queue is first in, first out: tasks enqueued as `a`, then `b`, come out after
/// everything already queued, `a` first, then `b`, and then the queue is empty.
pub proof fn lemma_queue_fifo(q: Seq<TaskView>, a: TaskView, b: TaskView)
    ensures
        q.push(a).push(b).skip(q.len() as int) == seq![a, b],
        q.len() == 0 ==> ({
            let q2 = q.push(a).push(b);
            &&& q2[0] == a
            &&& q2.skip(1)[0] == b
            &&& q2.skip(1).skip(1).len() == 0
        }),
{
    assert(q.push(a).push(b).skip(q.len() as int) =~= seq![a, b]);
}

/// Typing changes only the field of the active stage: outside the name stage the name
/// stays as it was, and so on for each field.
pub proof fn lemma_typing_touches_active_field(t: TaskView, s: CreationState, c: char)
    ensures
        s != CreationState::Taskname ==> typed_into(t, s, c).name == t.name,
        s != CreationState::Envname ==> typed_into(t, s, c).environment == t.environment,
        s != CreationState::Dir ==> typed_into(t, s, c).directory == t.directory,
        typed_into(t, s, c).yaml == t.yaml,
{
}

} // verus!

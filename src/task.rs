use vstd::prelude::*;

use crate::doc::{Tree, Value};

verus! {

/// One unit of work: a name, an environment, a directory and, once attached, a document.
#[derive(Debug)]
pub struct Task {
    task_name: String,
    environment: String,
    directory: String,
    yaml: Option<Value>,
}

pub struct TaskView {
    pub name: Seq<char>,
    pub environment: Seq<char>,
    pub directory: Seq<char>,
    pub yaml: Option<Tree>,
}

/// A task with every field empty and no document.
pub open spec fn empty_task() -> TaskView {
    TaskView {
        name: Seq::empty(),
        environment: Seq::empty(),
        directory: Seq::empty(),
        yaml: None,
    }
}

/// The model of an optional document.
pub open spec fn opt_tree(v: Option<Value>) -> Option<Tree> {
    match v {
        Some(d) => Some(d@),
        None => None,
    }
}

impl View for Task {
    type V = TaskView;

    closed spec fn view(&self) -> TaskView {
        TaskView {
            name: self.task_name@,
            environment: self.environment@,
            directory: self.directory@,
            yaml: opt_tree(self.yaml),
        }
    }
}

impl Task {
    pub fn new() -> (r: Self)
        ensures
            r@ == empty_task(),
    {
        let r = Self {
            task_name: String::new(),
            environment: String::new(),
            directory: String::new(),
            yaml: None,
        };
        proof {
            assert(r@.name =~= Seq::<char>::empty());
            assert(r@.environment =~= Seq::<char>::empty());
            assert(r@.directory =~= Seq::<char>::empty());
        }
        r
    }

    pub fn get_yaml(&self) -> (r: &Option<Value>)
        ensures
            opt_tree(*r) == self@.yaml,
    {
        &self.yaml
    }

    pub fn set_yaml(&mut self, yaml: Value)
        ensures
            final(self)@ == (TaskView { yaml: Some(yaml@), ..old(self)@ }),
    {
        self.yaml = Some(yaml);
    }

    pub fn get_task_name(&self) -> (r: &str)
        ensures
            r@ == self@.name,
    {
        self.task_name.as_str()
    }

    pub fn get_environment(&self) -> (r: &str)
        ensures
            r@ == self@.environment,
    {
        self.environment.as_str()
    }

    pub fn get_directory(&self) -> (r: &str)
        ensures
            r@ == self@.directory,
    {
        self.directory.as_str()
    }

    pub fn set_task_name(&mut self, string: String)
        ensures
            final(self)@ == (TaskView { name: string@, ..old(self)@ }),
    {
        self.task_name = string;
    }

    pub fn set_environment(&mut self, string: String)
        ensures
            final(self)@ == (TaskView { environment: string@, ..old(self)@ }),
    {
        self.environment = string;
    }

    pub fn set_directory(&mut self, string: String)
        ensures
            final(self)@ == (TaskView { directory: string@, ..old(self)@ }),
    {
        self.directory = string;
    }
}

} // verus!

use vstd::prelude::*;

use crate::doc::{
    get_flattened_key_by_index, leaves, scalar_of_text, set_nested_value_mut, set_path,
    split_dots, EditError, Tree, Value, flatten_value, entries_of, lemma_entries_of,
};
use crate::task::opt_tree;
use crate::text::{pop_char, push_char, without_last};

verus! {

/// What the screen shows and edits: the task list and its selection, the fields of the
/// task being authored, and the document editor with its cursor and text buffer.
pub struct Mainpage {
    task_selection: usize,
    active_view: bool,
    task_list: Vec<String>,
    task_running: bool,
    task_execution_location: String,
    wandb: bool,
    create_window: bool,
    yaml_mode: bool,
    create_task_name: String,
    create_env: String,
    create_dir: String,
    temp_yaml: Option<Value>,
    yaml_selection: usize,
    update_yaml_selection: bool,
    yaml_update_text: String,
}

pub struct PageView {
    pub task_selection: int,
    pub active_view: bool,
    pub task_list: Seq<Seq<char>>,
    pub task_running: bool,
    pub task_execution_location: Seq<char>,
    pub wandb: bool,
    pub create_window: bool,
    pub yaml_mode: bool,
    pub create_task_name: Seq<char>,
    pub create_env: Seq<char>,
    pub create_dir: Seq<char>,
    pub temp_yaml: Option<Tree>,
    pub yaml_selection: int,
    pub update_yaml_selection: bool,
    pub yaml_update_text: Seq<char>,
}

/// Number of leaves of the loaded document; none when no document is loaded.
pub open spec fn leaf_count(d: Option<Tree>) -> int {
    match d {
        Some(t) => leaves(t).len() as int,
        None => 0,
    }
}

/// One step forward through `n` positions, wrapping from the last to the first.
pub open spec fn step_forward(i: int, n: int) -> int {
    if n == 0 {
        0
    } else {
        (i + 1) % n
    }
}

/// One step back through `n` positions, wrapping from the first to the last.
pub open spec fn step_back(i: int, n: int) -> int {
    if n == 0 {
        0
    } else {
        (i + n - 1) % n
    }
}

/// The document after the buffer `text` is written at leaf `sel`; it stays as it was
/// when there is no such leaf or the address conflicts.
pub open spec fn doc_written(d: Option<Tree>, sel: int, text: Seq<char>) -> Option<Tree> {
    match d {
        Some(t) => if 0 <= sel < leaves(t).len() {
            match set_path(t, split_dots(leaves(t)[sel].0), scalar_of_text(text)) {
                Some(t2) => Some(t2),
                None => Some(t),
            }
        } else {
            Some(t)
        },
        None => None,
    }
}

/// Whether writing the buffer meets a conflicting address.
pub open spec fn write_conflicts(d: Option<Tree>, sel: int, text: Seq<char>) -> bool {
    match d {
        Some(t) => 0 <= sel < leaves(t).len() && set_path(
            t,
            split_dots(leaves(t)[sel].0),
            scalar_of_text(text),
        ) is None,
        None => false,
    }
}

pub open spec fn page_yaml_written(p: PageView) -> PageView {
    PageView {
        temp_yaml: doc_written(p.temp_yaml, p.yaml_selection, p.yaml_update_text),
        yaml_update_text: Seq::empty(),
        ..p
    }
}

pub open spec fn page_yaml_typed(p: PageView, c: char) -> PageView {
    PageView { yaml_update_text: p.yaml_update_text.push(c), ..p }
}

pub open spec fn page_yaml_erased(p: PageView) -> PageView {
    PageView { yaml_update_text: without_last(p.yaml_update_text), ..p }
}

pub open spec fn page_toggled(p: PageView) -> PageView {
    PageView { update_yaml_selection: !p.update_yaml_selection, ..p }
}

pub open spec fn page_yaml_next(p: PageView) -> PageView {
    PageView { yaml_selection: step_forward(p.yaml_selection, leaf_count(p.temp_yaml)), ..p }
}

pub open spec fn page_yaml_prev(p: PageView) -> PageView {
    PageView { yaml_selection: step_back(p.yaml_selection, leaf_count(p.temp_yaml)), ..p }
}

pub open spec fn page_task_next(p: PageView) -> PageView {
    PageView { task_selection: step_forward(p.task_selection, p.task_list.len() as int), ..p }
}

pub open spec fn page_task_prev(p: PageView) -> PageView {
    PageView { task_selection: step_back(p.task_selection, p.task_list.len() as int), ..p }
}

pub open spec fn page_with_temp(
    p: PageView,
    name: Seq<char>,
    env: Seq<char>,
    dir: Seq<char>,
) -> PageView {
    PageView { create_task_name: name, create_env: env, create_dir: dir, ..p }
}

pub open spec fn page_with_tasks(p: PageView, names: Seq<Seq<char>>) -> PageView {
    PageView { task_list: names, ..p }
}

pub open spec fn page_yaml_mode(p: PageView, b: bool) -> PageView {
    PageView { yaml_mode: b, ..p }
}

pub open spec fn page_create_window(p: PageView, b: bool) -> PageView {
    PageView { create_window: b, ..p }
}

pub open spec fn page_active_view(p: PageView, b: bool) -> PageView {
    PageView { active_view: b, ..p }
}

pub open spec fn page_without_yaml(p: PageView) -> PageView {
    PageView { temp_yaml: None, ..p }
}

impl View for Mainpage {
    type V = PageView;

    closed spec fn view(&self) -> PageView {
        PageView {
            task_selection: self.task_selection as int,
            active_view: self.active_view,
            task_list: self.task_list@.map_values(|s: String| s@),
            task_running: self.task_running,
            task_execution_location: self.task_execution_location@,
            wandb: self.wandb,
            create_window: self.create_window,
            yaml_mode: self.yaml_mode,
            create_task_name: self.create_task_name@,
            create_env: self.create_env@,
            create_dir: self.create_dir@,
            temp_yaml: opt_tree(self.temp_yaml),
            yaml_selection: self.yaml_selection as int,
            update_yaml_selection: self.update_yaml_selection,
            yaml_update_text: self.yaml_update_text@,
        }
    }
}

proof fn lemma_wrap_ends(n: int)
    requires
        n > 0,
    ensures
        step_forward(n - 1, n) == 0,
        step_back(0, n) == n - 1,
{
    vstd::arithmetic::div_mod::lemma_mod_self_0(n);
    vstd::arithmetic::div_mod::lemma_small_mod((n - 1) as nat, n as nat);
}

/// The position after `i` among `n`, wrapping, computed without overflow.
fn wrap_forward(i: usize, n: usize) -> (r: usize)
    ensures
        r as int == step_forward(i as int, n as int),
{
    if n == 0 {
        0
    } else {
        let s = i % n;
        proof {
            assert((i as int + 1) % (n as int) == (s as int + 1) % (n as int)) by (nonlinear_arith)
                requires
                    s == i % n,
                    n > 0,
            ;
        }
        if s + 1 == n {
            proof {
                vstd::arithmetic::div_mod::lemma_mod_self_0(n as int);
            }
            0
        } else {
            proof {
                vstd::arithmetic::div_mod::lemma_small_mod((s + 1) as nat, n as nat);
            }
            s + 1
        }
    }
}

/// The position before `i` among `n`, wrapping, computed without overflow.
fn wrap_back(i: usize, n: usize) -> (r: usize)
    ensures
        r as int == step_back(i as int, n as int),
{
    if n == 0 {
        0
    } else {
        let s = i % n;
        proof {
            assert((i as int + n - 1) % (n as int) == (s as int + n - 1) % (n as int))
                by (nonlinear_arith)
                requires
                    s == i % n,
                    n > 0,
            ;
        }
        if s == 0 {
            proof {
                vstd::arithmetic::div_mod::lemma_small_mod((n - 1) as nat, n as nat);
            }
            n - 1
        } else {
            proof {
                assert((s as int + n - 1) % (n as int) == s as int - 1) by (nonlinear_arith)
                    requires
                        0 < s < n,
                ;
            }
            s - 1
        }
    }
}

impl Mainpage {
    pub fn new() -> (r: Self)
        ensures
            r@.task_selection == 0,
            !r@.active_view,
            r@.task_list.len() == 0,
            !r@.task_running,
            r@.task_execution_location == seq!['L', 'O', 'C', 'A', 'L'],
            !r@.wandb,
            !r@.create_window,
            !r@.yaml_mode,
            r@.create_task_name.len() == 0,
            r@.create_env.len() == 0,
            r@.create_dir.len() == 0,
            r@.temp_yaml is None,
            r@.yaml_selection == 0,
            !r@.update_yaml_selection,
            r@.yaml_update_text.len() == 0,
    {
        proof {
            reveal_strlit("LOCAL");
        }
        let r = Self {
            task_selection: 0,
            active_view: false,
            task_list: Vec::new(),
            task_running: false,
            task_execution_location: String::from_str("LOCAL"),
            yaml_mode: false,
            wandb: false,
            create_window: false,
            create_task_name: String::new(),
            create_env: String::new(),
            create_dir: String::new(),
            temp_yaml: None,
            yaml_selection: 0,
            update_yaml_selection: false,
            yaml_update_text: String::new(),
        };
        proof {
            assert(r@.task_list =~= Seq::<Seq<char>>::empty());
        }
        r
    }

    /// Takes the loaded document out, leaving none.
    pub fn take_yaml(&mut self) -> (r: Option<Value>)
        ensures
            opt_tree(r) == old(self)@.temp_yaml,
            final(self)@ == page_without_yaml(old(self)@),
    {
        self.temp_yaml.take()
    }

    /// Writes the edit buffer into the selected leaf of the loaded document, then
    /// clears the buffer. A conflicting address leaves the document as it was and
    /// is reported.
    pub fn write_buff_to_yaml(&mut self) -> (r: Result<(), EditError>)
        ensures
            final(self)@ == page_yaml_written(old(self)@),
            r is Err <==> write_conflicts(
                old(self)@.temp_yaml,
                old(self)@.yaml_selection,
                old(self)@.yaml_update_text,
            ),
    {
        let mut result: Result<(), EditError> = Ok(());
        match self.temp_yaml.take() {
            Some(mut yaml) => {
                let key = get_flattened_key_by_index(&yaml, self.yaml_selection);
                match key {
                    Some(key_str) => {
                        result = set_nested_value_mut(
                            &mut yaml,
                            key_str.as_str(),
                            self.yaml_update_text.clone(),
                        );
                    },
                    None => {},
                }
                self.temp_yaml = Some(yaml);
            },
            None => {},
        }
        self.yaml_update_text = String::new();
        result
    }

    /// Number of leaves of the loaded document.
    fn get_yaml_line_count(&self) -> (r: usize)
        ensures
            r as int == leaf_count(self@.temp_yaml),
    {
        match &self.temp_yaml {
            Some(yaml_value) => {
                let flat = flatten_value(yaml_value);
                proof {
                    lemma_entries_of(flat@);
                }
                flat.len()
            },
            None => 0,
        }
    }

    pub fn write_to_yaml_buffer(&mut self, c: char)
        ensures
            final(self)@ == page_yaml_typed(old(self)@, c),
    {
        push_char(&mut self.yaml_update_text, c);
    }

    pub fn backspace_yaml_buffer(&mut self)
        ensures
            final(self)@ == page_yaml_erased(old(self)@),
    {
        pop_char(&mut self.yaml_update_text);
    }

    pub fn toggle_update_yaml_selection(&mut self)
        ensures
            final(self)@ == page_toggled(old(self)@),
    {
        self.update_yaml_selection = !self.update_yaml_selection;
    }

    /// Moves the document cursor to the next leaf, from the last back to the first;
    /// stays at 0 when there are no leaves.
    pub fn increment_yaml_selection(&mut self)
        ensures
            final(self)@ == page_yaml_next(old(self)@),
            leaf_count(old(self)@.temp_yaml) == 0 ==> final(self)@.yaml_selection == 0,
            old(self)@.yaml_selection == leaf_count(old(self)@.temp_yaml) - 1 ==> final(self)@.yaml_selection == 0,
    {
        let line_count = self.get_yaml_line_count();
        proof {
            if line_count > 0 {
                lemma_wrap_ends(line_count as int);
            }
        }
        self.yaml_selection = wrap_forward(self.yaml_selection, line_count);
    }

    /// Moves the document cursor to the previous leaf, from the first to the last;
    /// stays at 0 when there are no leaves.
    pub fn decrement_yaml_selection(&mut self)
        ensures
            final(self)@ == page_yaml_prev(old(self)@),
            leaf_count(old(self)@.temp_yaml) == 0 ==> final(self)@.yaml_selection == 0,
            old(self)@.yaml_selection == 0 && leaf_count(old(self)@.temp_yaml) > 0 ==> final(self)@.yaml_selection == leaf_count(old(self)@.temp_yaml) - 1,
    {
        let line_count = self.get_yaml_line_count();
        proof {
            if line_count > 0 {
                lemma_wrap_ends(line_count as int);
            }
        }
        self.yaml_selection = wrap_back(self.yaml_selection, line_count);
    }

    /// The names in the task list, in order.
    pub fn get_task_queue_names(&self) -> (r: Vec<&str>)
        ensures
            r@.len() == self@.task_list.len(),
            forall|i: int| 0 <= i < r@.len() ==> (#[trigger] r@[i])@ == self@.task_list[i],
    {
        let mut task_queue_names: Vec<&str> = Vec::new();
        let mut i: usize = 0;
        while i < self.task_list.len()
            invariant
                i <= self.task_list.len(),
                self@.task_list.len() == self.task_list@.len(),
                task_queue_names@.len() == i,
                forall|j: int|
                    0 <= j < i ==> (#[trigger] task_queue_names@[j])@ == self@.task_list[j],
            decreases self.task_list.len() - i,
        {
            task_queue_names.push(self.task_list[i].as_str());
            i = i + 1;
        }
        task_queue_names
    }

    /// Moves the task selection down, from the last back to the first.
    pub fn increase_selection(&mut self)
        ensures
            final(self)@ == page_task_next(old(self)@),
    {
        let len = self.task_list.len();
        self.task_selection = wrap_forward(self.task_selection, len);
    }

    pub fn update_temp_task(&mut self, task_name: &str, env_name: &str, dir: &str)
        ensures
            final(self)@ == page_with_temp(old(self)@, task_name@, env_name@, dir@),
    {
        self.create_task_name = String::from_str(task_name);
        self.create_env = String::from_str(env_name);
        self.create_dir = String::from_str(dir);
    }

    /// The name of the selected task.
    pub fn get_current_task_selection_name(&self) -> (r: &str)
        requires
            self@.task_selection < self@.task_list.len(),
        ensures
            r@ == self@.task_list[self@.task_selection],
    {
        self.task_list[self.task_selection].as_str()
    }

    pub fn get_task_selection(&self) -> (r: usize)
        ensures
            r as int == self@.task_selection,
    {
        self.task_selection
    }

    pub fn get_yaml_selection(&self) -> (r: usize)
        ensures
            r as int == self@.yaml_selection,
    {
        self.yaml_selection
    }

    pub fn get_update_yaml_selection(&self) -> (r: bool)
        ensures
            r == self@.update_yaml_selection,
    {
        self.update_yaml_selection
    }

    pub fn get_yaml_update_text(&self) -> (r: &str)
        ensures
            r@ == self@.yaml_update_text,
    {
        self.yaml_update_text.as_str()
    }

    pub fn get_temp_yaml(&self) -> (r: &Option<Value>)
        ensures
            opt_tree(*r) == self@.temp_yaml,
    {
        &self.temp_yaml
    }

    pub fn get_yaml_mode(&self) -> (r: &bool)
        ensures
            *r == self@.yaml_mode,
    {
        &self.yaml_mode
    }

    pub fn set_yaml_mode(&mut self, yaml_mode: bool)
        ensures
            final(self)@ == page_yaml_mode(old(self)@, yaml_mode),
    {
        self.yaml_mode = yaml_mode;
    }

    pub fn get_temp_name(&self) -> (r: &str)
        ensures
            r@ == self@.create_task_name,
    {
        self.create_task_name.as_str()
    }

    pub fn get_temp_env(&self) -> (r: &str)
        ensures
            r@ == self@.create_env,
    {
        self.create_env.as_str()
    }

    pub fn get_temp_dir(&self) -> (r: &str)
        ensures
            r@ == self@.create_dir,
    {
        self.create_dir.as_str()
    }

    pub fn set_temp_name(&mut self, name: String)
        ensures
            final(self)@ == (PageView { create_task_name: name@, ..old(self)@ }),
    {
        self.create_task_name = name;
    }

    pub fn set_temp_env(&mut self, env: String)
        ensures
            final(self)@ == (PageView { create_env: env@, ..old(self)@ }),
    {
        self.create_env = env;
    }

    pub fn set_temp_dir(&mut self, dir: String)
        ensures
            final(self)@ == (PageView { create_dir: dir@, ..old(self)@ }),
    {
        self.create_dir = dir;
    }

    pub fn get_task_running(&self) -> (r: &bool)
        ensures
            *r == self@.task_running,
    {
        &self.task_running
    }

    /// Replaces the task list with copies of `task_list`.
    pub fn update_task_list(&mut self, task_list: Vec<&str>)
        ensures
            final(self)@.task_list.len() == task_list@.len(),
            forall|i: int|
                0 <= i < task_list@.len() ==> final(self)@.task_list[i] == (#[trigger] task_list@[i])@,
            final(self)@ == page_with_tasks(old(self)@, final(self)@.task_list),
    {
        self.task_list.clear();
        let mut i: usize = 0;
        while i < task_list.len()
            invariant
                i <= task_list.len(),
                self.task_list@.len() == i,
                forall|j: int| 0 <= j < i ==> (#[trigger] self.task_list@[j])@ == task_list@[j]@,
                self.task_selection == old(self).task_selection,
                self.active_view == old(self).active_view,
                self.task_running == old(self).task_running,
                self.task_execution_location == old(self).task_execution_location,
                self.wandb == old(self).wandb,
                self.create_window == old(self).create_window,
                self.yaml_mode == old(self).yaml_mode,
                self.create_task_name == old(self).create_task_name,
                self.create_env == old(self).create_env,
                self.create_dir == old(self).create_dir,
                self.temp_yaml == old(self).temp_yaml,
                self.yaml_selection == old(self).yaml_selection,
                self.update_yaml_selection == old(self).update_yaml_selection,
                self.yaml_update_text == old(self).yaml_update_text,
            decreases task_list.len() - i,
        {
            self.task_list.push(String::from_str(task_list[i]));
            i = i + 1;
        }
    }

    pub fn get_active_view(&self) -> (r: &bool)
        ensures
            *r == self@.active_view,
    {
        &self.active_view
    }

    pub fn get_wandb(&self) -> (r: &bool)
        ensures
            *r == self@.wandb,
    {
        &self.wandb
    }

    pub fn get_task_execution_location(&self) -> (r: &str)
        ensures
            r@ == self@.task_execution_location,
    {
        self.task_execution_location.as_str()
    }

    pub fn set_active_view(&mut self, set_val: bool)
        ensures
            final(self)@ == page_active_view(old(self)@, set_val),
    {
        self.active_view = set_val;
    }

    pub fn set_create_window(&mut self, set_val: bool)
        ensures
            final(self)@ == page_create_window(old(self)@, set_val),
    {
        self.create_window = set_val;
    }

    /// Loads `yaml_file` into the document editor.
    pub fn set_yaml_file(&mut self, yaml_file: Value)
        ensures
            final(self)@ == (PageView { temp_yaml: Some(yaml_file@), ..old(self)@ }),
    {
        self.temp_yaml = Some(yaml_file);
    }

    pub fn get_create_window(&self) -> (r: &bool)
        ensures
            *r == self@.create_window,
    {
        &self.create_window
    }

    /// Moves the task selection up, from the first to the last.
    pub fn decrease_selection(&mut self)
        ensures
            final(self)@ == page_task_prev(old(self)@),
    {
        let len = self.task_list.len();
        self.task_selection = wrap_back(self.task_selection, len);
    }
}

} // verus!

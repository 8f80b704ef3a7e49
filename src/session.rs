use vstd::prelude::*;

use crate::app::{
    app_begun, app_committed, map_template, app_erased, app_staged, app_typed, app_with_yaml, is_first_named,
    next_stage, prev_stage, queue_names, App, AppView, CreationState, State,
};
use crate::doc::EditError;
use crate::events::Actions;
use crate::page::{
    page_active_view, page_create_window, page_task_next, page_task_prev, page_toggled,
    page_with_tasks, page_with_temp, page_without_yaml, page_yaml_erased, page_yaml_mode,
    page_yaml_next, page_yaml_prev, page_yaml_typed, page_yaml_written, write_conflicts,
    Mainpage, PageView,
};
use crate::task::Task;

verus! {

/// Whether a job is running.
#[derive(PartialEq, Eq, Structural, Debug, Clone, Copy)]
pub enum RunStatus {
    Idle,
    Busy,
}

/// The page after Enter while browsing: the selected task's fields are shown when it is
/// in the queue.
pub open spec fn browse_enter_ok(p: PageView, a: AppView, page_after: PageView) -> bool {
    let shown = page_active_view(p, true);
    if 0 <= p.task_selection < p.task_list.len() {
        let name = p.task_list[p.task_selection];
        if exists|i: int| is_first_named(a.queue, name, i) {
            exists|i: int|
                is_first_named(a.queue, name, i) && page_after == page_with_temp(
                    shown,
                    name,
                    a.queue[i].environment,
                    a.queue[i].directory,
                )
        } else {
            page_after == shown
        }
    } else {
        page_after == shown
    }
}

/// Handles one action while the task list is browsed.
pub fn task_browsing(mp_struct: &mut Mainpage, app: &mut App, action: Option<Actions>)
    ensures
        action == Some(Actions::Quit) ==> final(app)@ == (AppView {
            state: State::Exit,
            ..old(app)@
        }) && final(mp_struct)@ == old(mp_struct)@,
        action == Some(Actions::Createtask) ==> final(app)@ == app_begun(old(app)@) && final(mp_struct)@ == page_create_window(old(mp_struct)@, true),
        action == Some(Actions::Moveup) ==> final(app)@ == old(app)@ && final(mp_struct)@
            == page_active_view(page_task_prev(old(mp_struct)@), false),
        action == Some(Actions::Movedown) ==> final(app)@ == old(app)@ && final(mp_struct)@
            == page_active_view(page_task_next(old(mp_struct)@), false),
        action == Some(Actions::Enter) ==> final(app)@ == old(app)@ && browse_enter_ok(
            old(mp_struct)@,
            old(app)@,
            final(mp_struct)@,
        ),
        !(action == Some(Actions::Quit) || action == Some(Actions::Createtask) || action == Some(
            Actions::Moveup,
        ) || action == Some(Actions::Movedown) || action == Some(Actions::Enter)) ==> final(app)@ == old(app)@ && final(mp_struct)@ == old(mp_struct)@,
{
    match action {
        Some(Actions::Quit) => {
            app.set_state(State::Exit);
        },
        Some(Actions::Createtask) => {
            app.create_new_template_task();
            mp_struct.set_create_window(true);
        },
        Some(Actions::Moveup) => {
            mp_struct.decrease_selection();
            mp_struct.set_active_view(false);
        },
        Some(Actions::Movedown) => {
            mp_struct.increase_selection();
            mp_struct.set_active_view(false);
        },
        Some(Actions::Enter) => {
            mp_struct.set_active_view(true);
            let names = mp_struct.get_task_queue_names();
            if mp_struct.get_task_selection() < names.len() {
                let name = String::from_str(mp_struct.get_current_task_selection_name());
                match app.get_task_info(name.as_str()) {
                    Some((env, dir)) => {
                        let env = String::from_str(env);
                        let dir = String::from_str(dir);
                        mp_struct.set_temp_name(name);
                        mp_struct.set_temp_env(env);
                        mp_struct.set_temp_dir(dir);
                    },
                    None => {},
                }
            }
        },
        _ => {},
    }
}

} // verus!

verus! {

/// The page once it shows the fields of the task being authored.
pub open spec fn page_synced(p: PageView, a: AppView) -> PageView {
    match a.template {
        Some(t) => page_with_temp(p, t.name, t.environment, t.directory),
        None => p,
    }
}

/// The queue and template after Enter outside the document editor: the loaded document
/// goes to the authored task, which is committed.
pub open spec fn app_confirmed(a: AppView, p: PageView) -> AppView {
    match p.temp_yaml {
        Some(d) => app_committed(app_with_yaml(a, d)),
        None => app_committed(a),
    }
}

/// Whether `app_after` and `page_after` follow `a` and `p` when `action` arrives while a task is authored.
pub open spec fn creating_step(
    a: AppView,
    p: PageView,
    action: Actions,
    app_after: AppView,
    page_after: PageView,
) -> bool {
    let shown = page_synced(p, a);
    match action {
        Actions::Quit => app_after == map_template(a, None) && page_after == page_create_window(
            shown,
            false,
        ),
        Actions::Char(c) => if p.yaml_mode {
            app_after == a && page_after == page_yaml_typed(shown, c)
        } else {
            app_after == app_typed(a, c) && page_after == shown
        },
        Actions::Delete => if p.yaml_mode {
            app_after == a && page_after == page_yaml_erased(shown)
        } else {
            app_after == app_erased(a) && page_after == shown
        },
        Actions::Tab => app_after == a && page_after == page_toggled(shown),
        Actions::Moveup => {
            let s = prev_stage(a.creation_state);
            app_after == app_staged(a, s) && page_after == page_yaml_mode(shown, s == CreationState::Yaml)
        },
        Actions::Movedown => {
            let s = next_stage(a.creation_state);
            app_after == app_staged(a, s) && page_after == page_yaml_mode(shown, s == CreationState::Yaml)
        },
        Actions::Right => app_after == a && page_after == page_yaml_next(shown),
        Actions::Left => app_after == a && page_after == page_yaml_prev(shown),
        Actions::Enter => if p.yaml_mode {
            app_after == a && page_after == page_toggled(page_yaml_written(shown))
        } else {
            app_after == app_confirmed(a, shown) && page_after == page_create_window(
                page_with_tasks(page_without_yaml(shown), queue_names(app_after.queue)),
                false,
            )
        },
        _ => app_after == a && page_after == shown,
    }
}

/// Handles one action while a task is authored. Quit abandons the task being authored
/// and closes the window. Typing and backspace go to the field of
/// the active stage, or to the edit buffer when the document stage is active; up and down
/// move back and forward through the stages; Enter writes the buffer into the selected
/// leaf, or, outside the document stage, commits the task with the loaded document.
/// An edit refused for a conflicting address is returned.
pub fn task_creating(mp_struct: &mut Mainpage, app: &mut App, action: Option<Actions>) -> (r:
    Result<(), EditError>)
    ensures
        action is None ==> final(app)@ == old(app)@ && final(mp_struct)@ == old(mp_struct)@,
        action matches Some(act) ==> creating_step(
            old(app)@,
            old(mp_struct)@,
            act,
            final(app)@,
            final(mp_struct)@,
        ),
        r is Err <==> (action == Some(Actions::Enter) && old(mp_struct)@.yaml_mode
            && write_conflicts(
            old(mp_struct)@.temp_yaml,
            old(mp_struct)@.yaml_selection,
            old(mp_struct)@.yaml_update_text,
        )),
{
    let mut result: Result<(), EditError> = Ok(());
    match action {
        None => {},
        Some(action) => {
            match app.read_template_task() {
                Some(task) => {
                    mp_struct.update_temp_task(
                        task.get_task_name(),
                        task.get_environment(),
                        task.get_directory(),
                    );
                },
                None => {},
            }
            match action {
                Actions::Quit => {
                    let _abandoned = app.task_template_task();
                    mp_struct.set_create_window(false);
                },
                Actions::Char(c) => {
                    if *mp_struct.get_yaml_mode() {
                        mp_struct.write_to_yaml_buffer(c);
                    } else {
                        app.write_to_buffer(c);
                    }
                },
                Actions::Delete => {
                    if *mp_struct.get_yaml_mode() {
                        mp_struct.backspace_yaml_buffer();
                    } else {
                        app.pop_last_elem_from_buffer();
                    }
                },
                Actions::Tab => mp_struct.toggle_update_yaml_selection(),
                Actions::Moveup => {
                    app.move_up_fsm();
                    let yaml = app.is_yaml_state();
                    mp_struct.set_yaml_mode(yaml);
                },
                Actions::Movedown => {
                    app.move_down_fsm();
                    let yaml = app.is_yaml_state();
                    mp_struct.set_yaml_mode(yaml);
                },
                Actions::Right => {
                    mp_struct.increment_yaml_selection();
                },
                Actions::Left => {
                    mp_struct.decrement_yaml_selection();
                },
                Actions::Enter => {
                    if *mp_struct.get_yaml_mode() {
                        result = mp_struct.write_buff_to_yaml();
                        mp_struct.toggle_update_yaml_selection();
                    } else {
                        match mp_struct.take_yaml() {
                            Some(yaml) => app.set_yaml(yaml),
                            None => {},
                        }
                        app.pass_template_to_task_list();
                        let names = app.get_task_queue_names();
                        let ghost nv = names@;
                        mp_struct.update_task_list(names);
                        proof {
                            assert forall|i: int| 0 <= i < nv.len() implies mp_struct@.task_list[i]
                                == queue_names(app@.queue)[i] by {
                                assert(nv[i]@ == app@.queue[i].name);
                            }
                            assert(mp_struct@.task_list =~= queue_names(app@.queue));
                        }
                        mp_struct.set_create_window(false);
                    }
                },
                _ => {},
            }
        },
    }
    result
}

/// One scheduling step of the poll loop. While a job runs nothing happens. Otherwise the
/// page's task list is refreshed from the queue and the head of the queue, if any, is
/// claimed: at most one task per step, and none while busy.
pub fn poll_cycle(status: RunStatus, app: &mut App, mp_struct: &mut Mainpage) -> (r: Option<Task>)
    ensures
        status == RunStatus::Busy ==> r is None && final(app)@ == old(app)@ && final(mp_struct)@ == old(mp_struct)@,
        status == RunStatus::Idle ==> final(mp_struct)@ == page_with_tasks(
            old(mp_struct)@,
            queue_names(old(app)@.queue),
        ),
        status == RunStatus::Idle && old(app)@.queue.len() == 0 ==> r is None && final(app)@
            == old(app)@,
        status == RunStatus::Idle && old(app)@.queue.len() > 0 ==> (r matches Some(t) && t@
            == old(app)@.queue[0] && final(app)@ == (AppView {
            queue: old(app)@.queue.skip(1),
            ..old(app)@
        })),
{
    match status {
        RunStatus::Busy => None,
        RunStatus::Idle => {
            let names = app.get_task_queue_names();
            let ghost nv = names@;
            mp_struct.update_task_list(names);
            proof {
                assert forall|i: int| 0 <= i < nv.len() implies mp_struct@.task_list[i]
                    == queue_names(app@.queue)[i] by {
                    assert(nv[i]@ == app@.queue[i].name);
                }
                assert(mp_struct@.task_list =~= queue_names(app@.queue));
            }
            if !app.task_queue_is_empty() {
                app.pop_first_task()
            } else {
                None
            }
        },
    }
}

/// The status once a claimed task's document has been written, or has failed to be:
/// a job starts only after a successful write.
pub fn status_after_persist(persisted: bool) -> (r: RunStatus)
    ensures
        r == (if persisted {
            RunStatus::Busy
        } else {
            RunStatus::Idle
        }),
{
    if persisted {
        RunStatus::Busy
    } else {
        RunStatus::Idle
    }
}

} // verus!

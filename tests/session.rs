use task_dashboard::app::{App, CreationState, State};
use task_dashboard::doc::{EditError, Value};
use task_dashboard::events::Actions;
use task_dashboard::page::Mainpage;
use task_dashboard::session::{
    poll_cycle, status_after_persist, task_browsing, task_creating, RunStatus,
};
use task_dashboard::task::Task;

fn s(text: &str) -> Value {
    Value::Str(text.to_string())
}

fn map(entries: Vec<(&str, Value)>) -> Value {
    Value::Mapping(entries.into_iter().map(|(k, v)| (k.to_string(), v)).collect())
}

fn three_leaves() -> Value {
    map(vec![
        ("a", Value::Int(1)),
        ("b", map(vec![("c", s("x")), ("d", Value::Bool(true))])),
    ])
}

fn named(name: &str) -> Task {
    let mut t = Task::new();
    t.set_task_name(name.to_string());
    t.set_environment(format!("env-{}", name));
    t.set_directory(format!("dir-{}", name));
    t
}

fn send(mp: &mut Mainpage, app: &mut App, action: Actions) -> Result<(), EditError> {
    task_creating(mp, app, Some(action))
}

#[test]
fn document_cursor_wraps_forward() {
    let mut mp = Mainpage::new();
    mp.set_yaml_file(three_leaves());
    mp.increment_yaml_selection();
    mp.increment_yaml_selection();
    assert_eq!(mp.get_yaml_selection(), 2);
    mp.increment_yaml_selection();
    assert_eq!(mp.get_yaml_selection(), 0);
}

#[test]
fn document_cursor_wraps_backward() {
    let mut mp = Mainpage::new();
    mp.set_yaml_file(three_leaves());
    mp.decrement_yaml_selection();
    assert_eq!(mp.get_yaml_selection(), 2);
    mp.decrement_yaml_selection();
    assert_eq!(mp.get_yaml_selection(), 1);
}

#[test]
fn document_cursor_stays_at_zero_without_leaves() {
    let mut mp = Mainpage::new();
    mp.increment_yaml_selection();
    assert_eq!(mp.get_yaml_selection(), 0);
    mp.decrement_yaml_selection();
    assert_eq!(mp.get_yaml_selection(), 0);
    mp.set_yaml_file(map(vec![("empty", map(vec![])), ("none", Value::Sequence(vec![]))]));
    mp.increment_yaml_selection();
    mp.decrement_yaml_selection();
    assert_eq!(mp.get_yaml_selection(), 0);
}

#[test]
fn task_selection_wraps_both_ways() {
    let mut mp = Mainpage::new();
    mp.increase_selection();
    mp.decrease_selection();
    assert_eq!(mp.get_task_selection(), 0);
    mp.update_task_list(vec!["a", "b", "c"]);
    mp.decrease_selection();
    assert_eq!(mp.get_task_selection(), 2);
    assert_eq!(mp.get_current_task_selection_name(), "c");
    mp.increase_selection();
    assert_eq!(mp.get_task_selection(), 0);
    assert_eq!(mp.get_task_queue_names(), vec!["a", "b", "c"]);
}

#[test]
fn edit_buffer_and_write_to_selected_leaf() {
    let mut mp = Mainpage::new();
    mp.set_yaml_file(three_leaves());
    mp.increment_yaml_selection();
    for c in "42".chars() {
        mp.write_to_yaml_buffer(c);
    }
    mp.write_to_yaml_buffer('z');
    mp.backspace_yaml_buffer();
    assert_eq!(mp.get_yaml_update_text(), "42");
    assert_eq!(mp.write_buff_to_yaml(), Ok(()));
    assert_eq!(mp.get_yaml_update_text(), "");
    let expected = map(vec![
        ("a", Value::Int(1)),
        ("b", map(vec![("c", Value::Int(42)), ("d", Value::Bool(true))])),
    ]);
    assert_eq!(mp.get_temp_yaml(), &Some(expected));
}

#[test]
fn write_without_document_only_clears_buffer() {
    let mut mp = Mainpage::new();
    mp.write_to_yaml_buffer('q');
    assert_eq!(mp.write_buff_to_yaml(), Ok(()));
    assert!(mp.get_temp_yaml().is_none());
    assert_eq!(mp.get_yaml_update_text(), "");
}

#[test]
fn page_defaults_and_setters() {
    let mut mp = Mainpage::new();
    assert_eq!(mp.get_task_execution_location(), "LOCAL");
    assert!(!*mp.get_wandb());
    assert!(!*mp.get_task_running());
    assert!(!*mp.get_create_window());
    mp.set_create_window(true);
    assert!(*mp.get_create_window());
    mp.set_active_view(true);
    assert!(*mp.get_active_view());
    mp.set_yaml_mode(true);
    assert!(*mp.get_yaml_mode());
    mp.toggle_update_yaml_selection();
    assert!(mp.get_update_yaml_selection());
    mp.update_temp_task("n", "e", "d");
    assert_eq!((mp.get_temp_name(), mp.get_temp_env(), mp.get_temp_dir()), ("n", "e", "d"));
    mp.set_temp_name("m".to_string());
    mp.set_temp_env("f".to_string());
    mp.set_temp_dir("g".to_string());
    assert_eq!((mp.get_temp_name(), mp.get_temp_env(), mp.get_temp_dir()), ("m", "f", "g"));
    mp.set_yaml_file(Value::Null);
    assert_eq!(mp.take_yaml(), Some(Value::Null));
    assert!(mp.get_temp_yaml().is_none());
}

#[test]
fn busy_status_claims_nothing() {
    let mut app = App::new_app();
    let mut mp = Mainpage::new();
    app.add_task_to_queue(named("A"));
    assert!(poll_cycle(RunStatus::Busy, &mut app, &mut mp).is_none());
    assert_eq!(app.get_task_queue_names(), vec!["A"]);
    assert!(mp.get_task_queue_names().is_empty());
}

#[test]
fn idle_status_claims_exactly_one() {
    let mut app = App::new_app();
    let mut mp = Mainpage::new();
    app.add_task_to_queue(named("A"));
    app.add_task_to_queue(named("B"));
    let t = poll_cycle(RunStatus::Idle, &mut app, &mut mp).unwrap();
    assert_eq!(t.get_task_name(), "A");
    assert_eq!(app.get_task_queue_names(), vec!["B"]);
    assert_eq!(mp.get_task_queue_names(), vec!["A", "B"]);
    let t = poll_cycle(RunStatus::Idle, &mut app, &mut mp).unwrap();
    assert_eq!(t.get_task_name(), "B");
    assert!(poll_cycle(RunStatus::Idle, &mut app, &mut mp).is_none());
    assert!(mp.get_task_queue_names().is_empty());
}

#[test]
fn job_starts_only_after_persisting() {
    assert_eq!(status_after_persist(true), RunStatus::Busy);
    assert_eq!(status_after_persist(false), RunStatus::Idle);
}

#[test]
fn browsing_quit_and_create() {
    let mut app = App::new_app();
    let mut mp = Mainpage::new();
    task_browsing(&mut mp, &mut app, Some(Actions::Createtask));
    assert!(*mp.get_create_window());
    assert_eq!(*app.get_creation_state(), CreationState::Taskname);
    assert!(app.read_template_task().is_some());
    task_browsing(&mut mp, &mut app, Some(Actions::Quit));
    assert_eq!(*app.get_state(), State::Exit);
}

#[test]
fn browsing_enter_shows_selected_task() {
    let mut app = App::new_app();
    let mut mp = Mainpage::new();
    app.add_task_to_queue(named("A"));
    app.add_task_to_queue(named("B"));
    mp.update_task_list(app.get_task_queue_names());
    task_browsing(&mut mp, &mut app, Some(Actions::Movedown));
    assert!(!*mp.get_active_view());
    task_browsing(&mut mp, &mut app, Some(Actions::Enter));
    assert!(*mp.get_active_view());
    assert_eq!(mp.get_temp_name(), "B");
    assert_eq!(mp.get_temp_env(), "env-B");
    assert_eq!(mp.get_temp_dir(), "dir-B");
    task_browsing(&mut mp, &mut app, Some(Actions::Moveup));
    assert_eq!(mp.get_task_selection(), 0);
}

#[test]
fn browsing_enter_on_empty_list_only_activates_view() {
    let mut app = App::new_app();
    let mut mp = Mainpage::new();
    task_browsing(&mut mp, &mut app, Some(Actions::Enter));
    assert!(*mp.get_active_view());
    assert_eq!(mp.get_temp_name(), "");
    task_browsing(&mut mp, &mut app, None);
    task_browsing(&mut mp, &mut app, Some(Actions::Idle));
    assert_eq!(*app.get_state(), State::Enter);
}

#[test]
fn creating_a_task_end_to_end() {
    let mut app = App::new_app();
    let mut mp = Mainpage::new();
    mp.set_yaml_file(three_leaves());
    task_browsing(&mut mp, &mut app, Some(Actions::Createtask));
    for c in "job".chars() {
        send(&mut mp, &mut app, Actions::Char(c)).unwrap();
    }
    send(&mut mp, &mut app, Actions::Movedown).unwrap();
    send(&mut mp, &mut app, Actions::Char('e')).unwrap();
    send(&mut mp, &mut app, Actions::Movedown).unwrap();
    send(&mut mp, &mut app, Actions::Char('d')).unwrap();
    send(&mut mp, &mut app, Actions::Char('x')).unwrap();
    send(&mut mp, &mut app, Actions::Delete).unwrap();
    send(&mut mp, &mut app, Actions::Movedown).unwrap();
    assert!(*mp.get_yaml_mode());
    send(&mut mp, &mut app, Actions::Right).unwrap();
    send(&mut mp, &mut app, Actions::Tab).unwrap();
    assert!(mp.get_update_yaml_selection());
    send(&mut mp, &mut app, Actions::Char('7')).unwrap();
    send(&mut mp, &mut app, Actions::Enter).unwrap();
    assert!(!mp.get_update_yaml_selection());
    send(&mut mp, &mut app, Actions::Moveup).unwrap();
    assert!(!*mp.get_yaml_mode());
    assert_eq!(mp.get_temp_name(), "job");
    assert_eq!(mp.get_temp_env(), "e");
    assert_eq!(mp.get_temp_dir(), "d");
    send(&mut mp, &mut app, Actions::Enter).unwrap();
    assert!(!*mp.get_create_window());
    assert!(mp.get_temp_yaml().is_none());
    assert_eq!(mp.get_task_queue_names(), vec!["job"]);
    let t = app.pop_first_task().unwrap();
    assert_eq!(t.get_directory(), "d");
    let expected = map(vec![
        ("a", Value::Int(1)),
        ("b", map(vec![("c", Value::Int(7)), ("d", Value::Bool(true))])),
    ]);
    assert_eq!(t.get_yaml(), &Some(expected));
}

#[test]
fn creating_writes_selected_leaf() {
    let mut app = App::new_app();
    let mut mp = Mainpage::new();
    mp.set_yaml_file(map(vec![("a", s("scalar"))]));
    task_browsing(&mut mp, &mut app, Some(Actions::Createtask));
    mp.set_yaml_mode(true);
    send(&mut mp, &mut app, Actions::Char('v')).unwrap();
    assert_eq!(send(&mut mp, &mut app, Actions::Enter), Ok(()));
    assert_eq!(mp.get_temp_yaml(), &Some(map(vec![("a", s("v"))])));
}

#[test]
fn creating_reports_path_conflict() {
    let mut app = App::new_app();
    let mut mp = Mainpage::new();
    let doc = || map(vec![("a", s("scalar")), ("a.b", Value::Int(1))]);
    mp.set_yaml_file(doc());
    task_browsing(&mut mp, &mut app, Some(Actions::Createtask));
    mp.set_yaml_mode(true);
    send(&mut mp, &mut app, Actions::Right).unwrap();
    send(&mut mp, &mut app, Actions::Char('x')).unwrap();
    assert_eq!(send(&mut mp, &mut app, Actions::Enter), Err(EditError::PathConflict));
    assert_eq!(mp.get_temp_yaml(), &Some(doc()));
    assert_eq!(mp.get_yaml_update_text(), "");
}

#[test]
fn creating_quit_closes_window_and_none_does_nothing() {
    let mut app = App::new_app();
    let mut mp = Mainpage::new();
    task_browsing(&mut mp, &mut app, Some(Actions::Createtask));
    assert_eq!(task_creating(&mut mp, &mut app, None), Ok(()));
    assert!(*mp.get_create_window());
    send(&mut mp, &mut app, Actions::Char('x')).unwrap();
    send(&mut mp, &mut app, Actions::Quit).unwrap();
    assert!(!*mp.get_create_window());
    assert!(app.read_template_task().is_none());
    assert!(app.task_queue_is_empty());
}

#[test]
fn typing_at_environment_keeps_name() {
    let mut app = App::new_app();
    let mut mp = Mainpage::new();
    task_browsing(&mut mp, &mut app, Some(Actions::Createtask));
    send(&mut mp, &mut app, Actions::Char('n')).unwrap();
    send(&mut mp, &mut app, Actions::Movedown).unwrap();
    assert_eq!(*app.get_creation_state(), CreationState::Envname);
    send(&mut mp, &mut app, Actions::Char('e')).unwrap();
    let t = app.read_template_task().as_ref().unwrap();
    assert_eq!(t.get_task_name(), "n");
    assert_eq!(t.get_environment(), "e");
}

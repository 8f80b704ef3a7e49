use task_dashboard::app::{App, CreationState, State};
use task_dashboard::doc::Value;
use task_dashboard::task::Task;

fn named(name: &str, env: &str, dir: &str) -> Task {
    let mut t = Task::new();
    t.set_task_name(name.to_string());
    t.set_environment(env.to_string());
    t.set_directory(dir.to_string());
    t
}

fn type_text(app: &mut App, text: &str) {
    for c in text.chars() {
        app.write_to_buffer(c);
    }
}

#[test]
fn new_app_starts_empty() {
    let app = App::new_app();
    assert_eq!(*app.get_state(), State::Enter);
    assert_eq!(*app.get_creation_state(), CreationState::Null);
    assert!(app.task_queue_is_empty());
    assert!(app.read_template_task().is_none());
}

#[test]
fn four_advances_return_to_name() {
    let mut app = App::new_app();
    app.create_new_template_task();
    assert_eq!(*app.get_creation_state(), CreationState::Taskname);
    app.move_down_fsm();
    assert_eq!(*app.get_creation_state(), CreationState::Envname);
    app.move_down_fsm();
    assert_eq!(*app.get_creation_state(), CreationState::Dir);
    app.move_down_fsm();
    assert!(app.is_yaml_state());
    app.move_down_fsm();
    assert_eq!(*app.get_creation_state(), CreationState::Taskname);
}

#[test]
fn retreat_goes_backwards() {
    let mut app = App::new_app();
    app.create_new_template_task();
    app.move_up_fsm();
    assert_eq!(*app.get_creation_state(), CreationState::Yaml);
    app.move_up_fsm();
    assert_eq!(*app.get_creation_state(), CreationState::Dir);
    app.move_down_fsm();
    assert_eq!(*app.get_creation_state(), CreationState::Yaml);
}

#[test]
fn stages_do_not_move_without_authoring() {
    let mut app = App::new_app();
    app.move_down_fsm();
    app.move_up_fsm();
    assert_eq!(*app.get_creation_state(), CreationState::Null);
}

#[test]
fn typing_goes_to_the_active_field_only() {
    let mut app = App::new_app();
    app.create_new_template_task();
    type_text(&mut app, "job");
    app.move_down_fsm();
    type_text(&mut app, "py3");
    app.move_down_fsm();
    type_text(&mut app, "/tmp/x");
    app.move_down_fsm();
    type_text(&mut app, "ignored");
    let t = app.read_template_task().as_ref().unwrap();
    assert_eq!(t.get_task_name(), "job");
    assert_eq!(t.get_environment(), "py3");
    assert_eq!(t.get_directory(), "/tmp/x");
}

#[test]
fn backspace_removes_last_character() {
    let mut app = App::new_app();
    app.create_new_template_task();
    type_text(&mut app, "ab");
    app.pop_last_elem_from_buffer();
    assert_eq!(app.read_template_task().as_ref().unwrap().get_task_name(), "a");
    app.pop_last_elem_from_buffer();
    app.pop_last_elem_from_buffer();
    assert_eq!(app.read_template_task().as_ref().unwrap().get_task_name(), "");
}

#[test]
fn typing_without_template_does_nothing() {
    let mut app = App::new_app();
    app.set_creation_state(CreationState::Taskname);
    app.write_to_buffer('x');
    app.pop_last_elem_from_buffer();
    assert!(app.read_template_task().is_none());
}

#[test]
fn commit_moves_template_to_queue() {
    let mut app = App::new_app();
    app.create_new_template_task();
    type_text(&mut app, "first");
    app.set_yaml(Value::Int(1));
    app.pass_template_to_task_list();
    assert!(app.read_template_task().is_none());
    assert_eq!(app.get_task_queue_names(), vec!["first"]);
    let t = app.pop_first_task().unwrap();
    assert_eq!(t.get_yaml(), &Some(Value::Int(1)));
    app.pass_template_to_task_list();
    assert!(app.task_queue_is_empty());
}

#[test]
fn abandon_discards_template() {
    let mut app = App::new_app();
    app.create_new_template_task();
    type_text(&mut app, "gone");
    let t = app.task_template_task().unwrap();
    assert_eq!(t.get_task_name(), "gone");
    assert!(app.read_template_task().is_none());
    assert!(app.task_queue_is_empty());
}

#[test]
fn queue_is_first_in_first_out() {
    let mut app = App::new_app();
    app.add_task_to_queue(named("A", "e1", "d1"));
    app.add_task_to_queue(named("B", "e2", "d2"));
    assert_eq!(app.pop_first_task().unwrap().get_task_name(), "A");
    assert_eq!(app.pop_first_task().unwrap().get_task_name(), "B");
    assert!(app.pop_first_task().is_none());
}

#[test]
fn lookup_returns_environment_then_directory_of_first_match() {
    let mut app = App::new_app();
    app.add_task_to_queue(named("A", "envA", "dirA"));
    app.add_task_to_queue(named("B", "envB1", "dirB1"));
    app.add_task_to_queue(named("B", "envB2", "dirB2"));
    assert_eq!(app.get_task_info("B"), Some(("envB1", "dirB1")));
    assert_eq!(app.get_task_info("A"), Some(("envA", "dirA")));
    assert_eq!(app.get_task_info("C"), None);
    assert_eq!(app.get_task_queue_names(), vec!["A", "B", "B"]);
}

#[test]
fn state_setters() {
    let mut app = App::new_app();
    app.set_state(State::Main);
    assert_eq!(*app.get_state(), State::Main);
    app.set_creation_state(CreationState::Dir);
    assert_eq!(*app.get_creation_state(), CreationState::Dir);
}

#[test]
fn task_accessors() {
    let mut t = named("n", "e", "d");
    assert!(t.get_yaml().is_none());
    t.set_yaml(Value::Bool(true));
    assert_eq!(t.get_yaml(), &Some(Value::Bool(true)));
    assert_eq!(t.get_task_name(), "n");
    assert_eq!(t.get_environment(), "e");
    assert_eq!(t.get_directory(), "d");
}

use task_dashboard::events::{
    handle_key_input, read_key_strokes, traverse_with_keys, Actions, Input, Key,
};

#[test]
fn browsing_keys() {
    assert_eq!(traverse_with_keys(Input::Pressed(Key::Esc)), Some(Actions::Quit));
    assert_eq!(traverse_with_keys(Input::Pressed(Key::Char('c'))), Some(Actions::Createtask));
    assert_eq!(traverse_with_keys(Input::Pressed(Key::Char('x'))), Some(Actions::Idle));
    assert_eq!(traverse_with_keys(Input::Pressed(Key::Up)), Some(Actions::Moveup));
    assert_eq!(traverse_with_keys(Input::Pressed(Key::Down)), Some(Actions::Movedown));
    assert_eq!(traverse_with_keys(Input::Pressed(Key::Enter)), Some(Actions::Enter));
    assert_eq!(traverse_with_keys(Input::Pressed(Key::Backspace)), Some(Actions::Idle));
    assert_eq!(traverse_with_keys(Input::Nothing), Some(Actions::Idle));
    assert_eq!(traverse_with_keys(Input::Unreadable), None);
}

#[test]
fn typing_keys() {
    assert_eq!(read_key_strokes(Input::Pressed(Key::Char('c'))), Some(Actions::Char('c')));
    assert_eq!(read_key_strokes(Input::Pressed(Key::Backspace)), Some(Actions::Delete));
    assert_eq!(read_key_strokes(Input::Pressed(Key::Tab)), Some(Actions::Tab));
    assert_eq!(read_key_strokes(Input::Pressed(Key::Left)), Some(Actions::Left));
    assert_eq!(read_key_strokes(Input::Pressed(Key::Right)), Some(Actions::Right));
    assert_eq!(read_key_strokes(Input::Pressed(Key::Esc)), Some(Actions::Quit));
    assert_eq!(read_key_strokes(Input::Pressed(Key::Other)), Some(Actions::Idle));
    assert_eq!(read_key_strokes(Input::Nothing), Some(Actions::Idle));
    assert_eq!(read_key_strokes(Input::Unreadable), None);
}

#[test]
fn mode_selects_the_table() {
    let c = Input::Pressed(Key::Char('c'));
    assert_eq!(handle_key_input(c, true), Some(Actions::Char('c')));
    assert_eq!(handle_key_input(c, false), Some(Actions::Createtask));
}

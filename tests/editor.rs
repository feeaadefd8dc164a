use rucline::actions::{
    default_action, pick_action, resolve, Action, Direction, Event, KeyBindings, KeyCode,
    Modifiers, Overrider, Range, Scope,
};
use rucline::completion::Basic;
use rucline::prompt::buffer::Buffer;
use rucline::prompt::editor::{Editor, Outcome};
use rucline::Context;

fn press(editor: &mut Editor, code: KeyCode, completer: &Basic, suggester: &Basic) -> Outcome {
    let action = default_action(Event::from(code));
    editor.apply(action, Some(completer), Some(suggester))
}

fn type_text(editor: &mut Editor, text: &str, completer: &Basic, suggester: &Basic) {
    for c in text.chars() {
        assert_eq!(press(editor, KeyCode::Char(c), completer, suggester), Outcome::Continue);
    }
}

fn line(editor: &Editor) -> String {
    editor.buffer().to_string()
}

#[test]
fn tab_then_enter_accepts_first_suggestion() {
    let none = Basic::new(&[]);
    let commands = Basic::new(&["run", "walk", "fly"]);
    let mut editor = Editor::new();
    assert_eq!(press(&mut editor, KeyCode::Tab, &none, &commands), Outcome::Continue);
    assert_eq!(
        press(&mut editor, KeyCode::Enter, &none, &commands),
        Outcome::Accept("run".to_string())
    );
}

#[test]
fn two_tabs_then_enter_accepts_second_suggestion() {
    let none = Basic::new(&[]);
    let commands = Basic::new(&["run", "walk", "fly"]);
    let mut editor = Editor::new();
    press(&mut editor, KeyCode::Tab, &none, &commands);
    press(&mut editor, KeyCode::Tab, &none, &commands);
    assert_eq!(
        press(&mut editor, KeyCode::Enter, &none, &commands),
        Outcome::Accept("walk".to_string())
    );
}

#[test]
fn escape_cancels_at_any_point() {
    let none = Basic::new(&[]);
    let commands = Basic::new(&["run", "walk", "fly"]);
    let mut editor = Editor::new();
    assert_eq!(press(&mut editor, KeyCode::Esc, &none, &commands), Outcome::Cancel);
    press(&mut editor, KeyCode::Tab, &none, &commands);
    assert_eq!(press(&mut editor, KeyCode::Esc, &none, &commands), Outcome::Cancel);
    type_text(&mut editor, "xy", &none, &commands);
    assert_eq!(press(&mut editor, KeyCode::Esc, &none, &commands), Outcome::Cancel);
}

#[test]
fn forward_cycling_wraps_to_first() {
    let none = Basic::new(&[]);
    let commands = Basic::new(&["run", "walk", "fly"]);
    let mut editor = Editor::new();
    press(&mut editor, KeyCode::Tab, &none, &commands);
    assert_eq!(editor.suggestion(), Some(&['r', 'u', 'n'][..]));
    for _ in 0..3 {
        press(&mut editor, KeyCode::Tab, &none, &commands);
    }
    assert_eq!(editor.suggestion(), Some(&['r', 'u', 'n'][..]));
}

#[test]
fn backward_from_first_selects_last() {
    let none = Basic::new(&[]);
    let commands = Basic::new(&["run", "walk", "fly"]);
    let mut editor = Editor::new();
    press(&mut editor, KeyCode::Tab, &none, &commands);
    press(&mut editor, KeyCode::BackTab, &none, &commands);
    assert_eq!(editor.suggestion(), Some(&['f', 'l', 'y'][..]));
}

#[test]
fn backward_start_selects_last() {
    let none = Basic::new(&[]);
    let commands = Basic::new(&["run", "walk", "fly"]);
    let mut editor = Editor::new();
    press(&mut editor, KeyCode::BackTab, &none, &commands);
    assert_eq!(editor.suggestion(), Some(&['f', 'l', 'y'][..]));
}

#[test]
fn write_commits_selected_suggestion_first() {
    let none = Basic::new(&[]);
    let commands = Basic::new(&["run", "walk", "fly"]);
    let mut editor = Editor::new();
    type_text(&mut editor, "ab", &none, &commands);
    press(&mut editor, KeyCode::Left, &none, &commands);
    press(&mut editor, KeyCode::Tab, &none, &commands);
    press(&mut editor, KeyCode::Tab, &none, &commands);
    assert_eq!(line(&editor), "ab");
    press(&mut editor, KeyCode::Char('s'), &none, &commands);
    assert_eq!(line(&editor), "walks");
    assert_eq!(editor.buffer().cursor(), 5);
    assert_eq!(editor.suggestion(), None);
}

#[test]
fn move_commits_selected_suggestion() {
    let none = Basic::new(&[]);
    let commands = Basic::new(&["run", "walk", "fly"]);
    let mut editor = Editor::new();
    press(&mut editor, KeyCode::Tab, &none, &commands);
    press(&mut editor, KeyCode::Left, &none, &commands);
    assert_eq!(line(&editor), "run");
    assert_eq!(editor.buffer().cursor(), 2);
}

#[test]
fn empty_suggestions_start_no_cycle() {
    let none = Basic::new(&[]);
    let mut editor = Editor::new();
    press(&mut editor, KeyCode::Tab, &none, &none);
    assert_eq!(editor.suggestion(), None);
    assert_eq!(press(&mut editor, KeyCode::Enter, &none, &none), Outcome::Accept(String::new()));
}

#[test]
fn completion_follows_edits_and_commits() {
    let history = Basic::new(&["run", "fly"]);
    let none = Basic::new(&[]);
    let mut editor = Editor::new();
    assert_eq!(editor.completion(), None);
    type_text(&mut editor, "f", &history, &none);
    assert_eq!(editor.completion(), Some(&['l', 'y'][..]));
    let action = Action::Complete(Range::Single);
    editor.apply(action, Some(&history), Some(&none));
    assert_eq!(line(&editor), "fl");
    assert_eq!(editor.completion(), Some(&['y'][..]));
    let action = default_action(Event::new(KeyCode::Right, Modifiers::shift()));
    assert_eq!(action, Action::Complete(Range::Line));
    editor.apply(action, Some(&history), Some(&none));
    assert_eq!(line(&editor), "fly");
    assert_eq!(editor.buffer().cursor(), 3);
    press(&mut editor, KeyCode::Backspace, &history, &none);
    assert_eq!(line(&editor), "fl");
    assert_eq!(editor.completion(), Some(&['y'][..]));
}

#[test]
fn noop_changes_nothing() {
    let none = Basic::new(&[]);
    let mut editor = Editor::new();
    type_text(&mut editor, "ab", &none, &none);
    assert_eq!(press(&mut editor, KeyCode::Up, &none, &none), Outcome::Continue);
    assert_eq!(line(&editor), "ab");
    assert_eq!(editor.buffer().cursor(), 2);
}

#[test]
fn buffer_writes_at_cursor() {
    let mut buffer = Buffer::new();
    buffer.write('a');
    buffer.write('c');
    buffer.move_cursor(Range::Single, Direction::Backward);
    buffer.write('😀');
    assert_eq!(buffer.to_string(), "a😀c");
    assert_eq!(buffer.cursor(), 2);
}

#[test]
fn buffer_deletes_at_edges_are_noops() {
    let mut buffer = Buffer::new();
    buffer.delete(Scope::Relative(Range::Single, Direction::Backward));
    assert_eq!(buffer.to_string(), "");
    buffer.overwrite(&['a', 'b']);
    buffer.delete(Scope::Relative(Range::Single, Direction::Forward));
    assert_eq!(buffer.to_string(), "ab");
    assert_eq!(buffer.cursor(), 2);
    buffer.move_cursor(Range::Line, Direction::Backward);
    buffer.delete(Scope::Relative(Range::Single, Direction::Backward));
    assert_eq!(buffer.to_string(), "ab");
    assert_eq!(buffer.cursor(), 0);
}

#[test]
fn buffer_deletes_by_scope() {
    let text: Vec<char> = "ab  cd ef".chars().collect();
    let mut buffer = Buffer::new();
    buffer.overwrite(&text);
    buffer.delete(Scope::Relative(Range::Word, Direction::Backward));
    assert_eq!(buffer.to_string(), "ab  cd ");
    assert_eq!(buffer.cursor(), 7);

    buffer.overwrite(&text);
    buffer.move_cursor(Range::Line, Direction::Backward);
    buffer.delete(Scope::Relative(Range::Word, Direction::Forward));
    assert_eq!(buffer.to_string(), "cd ef");
    assert_eq!(buffer.cursor(), 0);

    buffer.overwrite(&text);
    buffer.move_cursor(Range::Word, Direction::Backward);
    buffer.move_cursor(Range::Single, Direction::Backward);
    buffer.delete(Scope::Relative(Range::Line, Direction::Backward));
    assert_eq!(buffer.to_string(), " ef");
    assert_eq!(buffer.cursor(), 0);

    buffer.overwrite(&text);
    buffer.move_cursor(Range::Single, Direction::Backward);
    buffer.delete(Scope::Relative(Range::Line, Direction::Forward));
    assert_eq!(buffer.to_string(), "ab  cd e");

    buffer.overwrite(&text);
    buffer.delete(Scope::WholeLine);
    assert_eq!(buffer.to_string(), "");
    assert_eq!(buffer.cursor(), 0);
}

#[test]
fn buffer_deletes_whole_word() {
    let text: Vec<char> = "ab  cd ef".chars().collect();
    let mut buffer = Buffer::new();
    buffer.overwrite(&text);
    buffer.move_cursor(Range::Line, Direction::Backward);
    buffer.move_cursor(Range::Word, Direction::Forward);
    buffer.move_cursor(Range::Single, Direction::Forward);
    assert_eq!(buffer.cursor(), 5);
    buffer.delete(Scope::WholeWord);
    assert_eq!(buffer.to_string(), "abef");
    assert_eq!(buffer.cursor(), 2);
}

#[test]
fn buffer_moves_clamp() {
    let mut buffer = Buffer::new();
    buffer.overwrite(&['x', 'y']);
    buffer.move_cursor(Range::Single, Direction::Forward);
    assert_eq!(buffer.cursor(), 2);
    buffer.move_cursor(Range::Line, Direction::Backward);
    buffer.move_cursor(Range::Single, Direction::Backward);
    assert_eq!(buffer.cursor(), 0);
    buffer.move_cursor(Range::Word, Direction::Backward);
    assert_eq!(buffer.cursor(), 0);
    buffer.move_cursor(Range::Line, Direction::Forward);
    assert_eq!(buffer.cursor(), 2);
    let context = buffer.context();
    assert_eq!(context.cursor(), 2);
}

#[test]
fn default_table() {
    let ctrl = Modifiers::control();
    assert_eq!(default_action(Event::from(KeyCode::Char('x'))), Action::Write('x'));
    assert_eq!(
        default_action(Event::new(KeyCode::Char('X'), Modifiers::shift())),
        Action::Write('X')
    );
    assert_eq!(
        default_action(Event::new(KeyCode::Char('w'), ctrl)),
        Action::Delete(Scope::WholeWord)
    );
    assert_eq!(
        default_action(Event::new(KeyCode::Char('j'), ctrl)),
        Action::Delete(Scope::Relative(Range::Word, Direction::Backward))
    );
    assert_eq!(
        default_action(Event::new(KeyCode::Char('k'), ctrl)),
        Action::Delete(Scope::Relative(Range::Word, Direction::Forward))
    );
    assert_eq!(
        default_action(Event::new(KeyCode::Char('u'), ctrl)),
        Action::Delete(Scope::WholeLine)
    );
    assert_eq!(
        default_action(Event::new(KeyCode::Char('h'), ctrl)),
        Action::Delete(Scope::Relative(Range::Line, Direction::Backward))
    );
    assert_eq!(
        default_action(Event::new(KeyCode::Char('l'), ctrl)),
        Action::Delete(Scope::Relative(Range::Line, Direction::Forward))
    );
    assert_eq!(default_action(Event::new(KeyCode::Char('q'), ctrl)), Action::Noop);
    assert_eq!(default_action(Event::from(KeyCode::Enter)), Action::Accept);
    assert_eq!(default_action(Event::from(KeyCode::Esc)), Action::Cancel);
    assert_eq!(default_action(Event::from(KeyCode::Tab)), Action::Suggest(Direction::Forward));
    assert_eq!(
        default_action(Event::from(KeyCode::BackTab)),
        Action::Suggest(Direction::Backward)
    );
    assert_eq!(
        default_action(Event::from(KeyCode::Backspace)),
        Action::Delete(Scope::Relative(Range::Single, Direction::Backward))
    );
    assert_eq!(
        default_action(Event::from(KeyCode::Delete)),
        Action::Delete(Scope::Relative(Range::Single, Direction::Forward))
    );
    assert_eq!(
        default_action(Event::from(KeyCode::Left)),
        Action::Move(Range::Single, Direction::Backward)
    );
    assert_eq!(
        default_action(Event::new(KeyCode::Right, ctrl)),
        Action::Move(Range::Word, Direction::Forward)
    );
    assert_eq!(
        default_action(Event::from(KeyCode::Home)),
        Action::Move(Range::Line, Direction::Backward)
    );
    assert_eq!(
        default_action(Event::from(KeyCode::End)),
        Action::Move(Range::Line, Direction::Forward)
    );
    assert_eq!(default_action(Event::from(KeyCode::Other)), Action::Noop);
}

struct ExitOnCtrlD;

impl Overrider for ExitOnCtrlD {
    fn override_for(&self, event: Event, _: &Context) -> Option<Action> {
        if event == Event::new(KeyCode::Char('d'), Modifiers::control()) {
            Some(Action::Cancel)
        } else {
            None
        }
    }
}

#[test]
fn resolution_order() {
    let mut bindings = KeyBindings::new();
    bindings.insert(Event::from(KeyCode::Right), Action::Complete(Range::Line));
    bindings.insert(Event::new(KeyCode::Char('d'), Modifiers::control()), Action::Accept);
    let text = ['a'];
    let context = Context::new(&text, 1);
    let hook = ExitOnCtrlD;
    assert_eq!(
        resolve(Event::new(KeyCode::Char('d'), Modifiers::control()), &context, Some(&hook), &bindings),
        Action::Cancel
    );
    assert_eq!(
        resolve(Event::new(KeyCode::Char('d'), Modifiers::control()), &context, None::<&ExitOnCtrlD>, &bindings),
        Action::Accept
    );
    assert_eq!(
        resolve(Event::from(KeyCode::Right), &context, Some(&hook), &bindings),
        Action::Complete(Range::Line)
    );
    assert_eq!(
        resolve(Event::from(KeyCode::Enter), &context, Some(&hook), &bindings),
        Action::Accept
    );
    assert_eq!(
        pick_action(Some(Action::Noop), &bindings, Event::from(KeyCode::Right)),
        Action::Noop
    );
}

#[test]
fn key_bindings_replace_earlier_binding() {
    let mut bindings = KeyBindings::new();
    assert_eq!(bindings.get(Event::from(KeyCode::Tab)), None);
    bindings.insert(Event::from(KeyCode::Tab), Action::Noop);
    bindings.insert(Event::from(KeyCode::Tab), Action::Accept);
    assert_eq!(bindings.get(Event::from(KeyCode::Tab)), Some(Action::Accept));
    let text: [char; 0] = [];
    let context = Context::new(&text, 0);
    assert_eq!(
        bindings.override_for(Event::from(KeyCode::Tab), &context),
        Some(Action::Accept)
    );
}

use vai::action::{read, Action, Direction, EditAction, Key, KeyCode, Scope};

fn plain(code: KeyCode) -> Key {
    Key { code, shift: false, control: false, alt: false, other: false }
}

fn control(c: char) -> Key {
    Key { code: KeyCode::Char(c), shift: false, control: true, alt: false, other: false }
}

fn alt(c: char) -> Key {
    Key { code: KeyCode::Char(c), shift: false, control: false, alt: true, other: false }
}

#[test]
fn named_keys() {
    assert_eq!(read(&plain(KeyCode::Enter)), Action::Execute);
    assert_eq!(read(&plain(KeyCode::Tab)), Action::Complete(Direction::Down));
    assert_eq!(read(&plain(KeyCode::BackTab)), Action::Complete(Direction::Up));
    assert_eq!(read(&plain(KeyCode::Backspace)), Action::Edit(EditAction::Delete(Scope::Back)));
    assert_eq!(read(&plain(KeyCode::Delete)), Action::Edit(EditAction::Delete(Scope::Forward)));
    assert_eq!(read(&plain(KeyCode::Right)), Action::MoveCursor(Scope::Forward));
    assert_eq!(read(&plain(KeyCode::Left)), Action::MoveCursor(Scope::Back));
    assert_eq!(read(&plain(KeyCode::Home)), Action::MoveCursor(Scope::BackAll));
    assert_eq!(read(&plain(KeyCode::End)), Action::MoveCursor(Scope::ForwardAll));
    assert_eq!(read(&plain(KeyCode::Other)), Action::Noop);
}

#[test]
fn named_keys_whatever_the_modifiers() {
    let key = Key { code: KeyCode::Enter, shift: true, control: true, alt: false, other: false };
    assert_eq!(read(&key), Action::Execute);
    let key = Key { code: KeyCode::Left, shift: false, control: false, alt: true, other: true };
    assert_eq!(read(&key), Action::MoveCursor(Scope::Back));
}

#[test]
fn characters_are_written() {
    assert_eq!(read(&plain(KeyCode::Char('a'))), Action::Edit(EditAction::Write('a')));
    assert_eq!(read(&plain(KeyCode::Char(' '))), Action::Edit(EditAction::Write(' ')));
    let shifted = Key { code: KeyCode::Char('A'), shift: true, control: false, alt: false, other: false };
    assert_eq!(read(&shifted), Action::Edit(EditAction::Write('A')));
}

#[test]
fn characters_with_control() {
    assert_eq!(read(&control('m')), Action::Execute);
    assert_eq!(read(&control('c')), Action::Cancel);
    assert_eq!(read(&control('d')), Action::Exit);
    assert_eq!(read(&control('b')), Action::MoveCursor(Scope::Back));
    assert_eq!(read(&control('f')), Action::MoveCursor(Scope::Forward));
    assert_eq!(read(&control('a')), Action::MoveCursor(Scope::BackAll));
    assert_eq!(read(&control('e')), Action::MoveCursor(Scope::ForwardAll));
    assert_eq!(read(&control('j')), Action::Edit(EditAction::Delete(Scope::BackWord)));
    assert_eq!(read(&control('k')), Action::Edit(EditAction::Delete(Scope::ForwardWord)));
    assert_eq!(read(&control('h')), Action::Edit(EditAction::Delete(Scope::BackAll)));
    assert_eq!(read(&control('l')), Action::Edit(EditAction::Delete(Scope::ForwardAll)));
    assert_eq!(read(&control('w')), Action::Edit(EditAction::Delete(Scope::WordAll)));
    assert_eq!(read(&control('u')), Action::Edit(EditAction::Delete(Scope::All)));
    assert_eq!(read(&control('x')), Action::Noop);
    assert_eq!(read(&control('M')), Action::Noop);
}

#[test]
fn characters_with_alt() {
    assert_eq!(read(&alt('b')), Action::MoveCursor(Scope::BackWord));
    assert_eq!(read(&alt('f')), Action::MoveCursor(Scope::ForwardWord));
    assert_eq!(read(&alt('x')), Action::Noop);
}

#[test]
fn characters_with_several_modifiers_are_written() {
    let key = Key { code: KeyCode::Char('c'), shift: true, control: true, alt: false, other: false };
    assert_eq!(read(&key), Action::Edit(EditAction::Write('c')));
    let key = Key { code: KeyCode::Char('b'), shift: false, control: true, alt: true, other: false };
    assert_eq!(read(&key), Action::Edit(EditAction::Write('b')));
    let key = Key { code: KeyCode::Char('f'), shift: false, control: false, alt: true, other: true };
    assert_eq!(read(&key), Action::Edit(EditAction::Write('f')));
}

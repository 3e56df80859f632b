use onyx_core::vim::{BufferCommand, Key, Mode, VimEngine};

fn engine() -> VimEngine {
    VimEngine::new()
}

#[test]
fn normal_h_emits_move_left() {
    let mut vm = engine();
    let cmd = vm.handle_key(Key::Char('h'));
    assert_eq!(cmd, Some(BufferCommand::MoveLeft));
    assert_eq!(vm.mode(), Mode::Normal);
}

#[test]
fn normal_i_enters_insert() {
    let mut vm = engine();
    let cmd = vm.handle_key(Key::Char('i'));
    assert_eq!(cmd, None);
    assert_eq!(vm.mode(), Mode::Insert);
}

#[test]
fn insert_escape_returns_normal() {
    let mut vm = engine();
    vm.handle_key(Key::Char('i'));
    let cmd = vm.handle_key(Key::Escape);
    assert_eq!(cmd, None);
    assert_eq!(vm.mode(), Mode::Normal);
}

#[test]
fn normal_v_enters_visual() {
    let mut vm = engine();
    vm.handle_key(Key::Char('v'));
    assert_eq!(vm.mode(), Mode::Visual);
}

#[test]
fn insert_char_emits_insert_char() {
    let mut vm = engine();
    vm.handle_key(Key::Char('i'));
    let cmd = vm.handle_key(Key::Char('a'));
    assert_eq!(cmd, Some(BufferCommand::Insert('a')));
}

#[test]
fn paste_carries_register_contents() {
    let mut vm = engine();
    vm.set_register("hello".to_string());
    let cmd = vm.handle_key(Key::Char('p'));
    assert_eq!(cmd, Some(BufferCommand::Paste("hello".to_string())));
}

#[test]
fn escape_in_normal_mode_is_idempotent() {
    let mut vm = engine();
    for _ in 0..4 {
        let cmd = vm.handle_key(Key::Escape);
        assert_eq!(cmd, None);
        assert_eq!(vm.mode(), Mode::Normal);
    }
}

#[test]
fn paste_uses_engine_register() {
    let mut vm = engine();
    vm.set_register("xyz".to_string());
    let cmd = vm.handle_key(Key::Char('p'));
    assert_eq!(cmd, Some(BufferCommand::Paste("xyz".to_string())));
}

#[test]
fn pending_dd_emits_delete_line() {
    let mut vm = engine();
    assert_eq!(vm.handle_key(Key::Char('d')), None);
    assert_eq!(vm.handle_key(Key::Char('d')), Some(BufferCommand::DeleteLine));
}

#[test]
fn pending_gg_emits_move_first_line() {
    let mut vm = engine();
    assert_eq!(vm.handle_key(Key::Char('g')), None);
    assert_eq!(vm.handle_key(Key::Char('g')), Some(BufferCommand::MoveFirstLine));
}

#[test]
fn pending_yy_emits_yank() {
    let mut vm = engine();
    assert_eq!(vm.handle_key(Key::Char('y')), None);
    assert_eq!(vm.handle_key(Key::Char('y')), Some(BufferCommand::Yank));
}

#[test]
fn unmatched_pending_sequence_is_cancelled() {
    let mut vm = engine();
    assert_eq!(vm.handle_key(Key::Char('d')), None);
    assert_eq!(vm.handle_key(Key::Char('w')), None);
    // the leader was consumed: 'd' starts a fresh sequence again
    assert_eq!(vm.handle_key(Key::Char('d')), None);
    assert_eq!(vm.handle_key(Key::Char('d')), Some(BufferCommand::DeleteLine));
}

#[test]
fn visual_escape_clears_selection_and_leaves() {
    let mut vm = engine();
    vm.handle_key(Key::Char('v'));
    let cmd = vm.handle_key(Key::Escape);
    assert_eq!(cmd, Some(BufferCommand::ClearSelection));
    assert_eq!(vm.mode(), Mode::Normal);
}

#[test]
fn visual_d_emits_delete_and_returns_normal() {
    let mut vm = engine();
    vm.handle_key(Key::Char('v'));
    let cmd = vm.handle_key(Key::Char('d'));
    assert_eq!(cmd, Some(BufferCommand::Delete));
    assert_eq!(vm.mode(), Mode::Normal);
}

#[test]
fn visual_c_emits_change_and_enters_insert() {
    let mut vm = engine();
    vm.handle_key(Key::Char('v'));
    let cmd = vm.handle_key(Key::Char('c'));
    assert_eq!(cmd, Some(BufferCommand::Change));
    assert_eq!(vm.mode(), Mode::Insert);
}

#[test]
fn normal_arrow_keys_move() {
    let mut vm = engine();
    assert_eq!(vm.handle_key(Key::Left), Some(BufferCommand::MoveLeft));
    assert_eq!(vm.handle_key(Key::Right), Some(BufferCommand::MoveRight));
    assert_eq!(vm.handle_key(Key::Up), Some(BufferCommand::MoveUp));
    assert_eq!(vm.handle_key(Key::Down), Some(BufferCommand::MoveDown));
}

#[test]
fn normal_a_moves_right_and_enters_insert() {
    let mut vm = engine();
    let cmd = vm.handle_key(Key::Char('a'));
    assert_eq!(cmd, Some(BufferCommand::MoveRight));
    assert_eq!(vm.mode(), Mode::Insert);
}

#[test]
fn normal_undo_and_redo_are_recognized() {
    let mut vm = engine();
    assert_eq!(vm.handle_key(Key::Char('u')), Some(BufferCommand::Undo));
    assert_eq!(vm.handle_key(Key::Char('\u{12}')), Some(BufferCommand::Redo));
}

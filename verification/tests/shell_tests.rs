use onyx_core::commands::Command;
use onyx_core::config;
use onyx_core::file_tree::{flatten_tree, flatten_tree_filtered, is_accepted_file, FileTreeEntry};
use onyx_core::keybindings::KeyBindings;
use onyx_core::vault::{GlobalConfig, PaneLayout, VaultConfig};
use onyx_core::welcome::{HitId, WelcomeAction};

#[test]
fn command_from_str_round_trips() {
    assert_eq!(Command::from_str("file.save").unwrap(), Command::FileSave);
    assert_eq!(Command::from_str("pane.file_tree.toggle").unwrap(), Command::PaneFileTreeToggle);
    assert_eq!(Command::from_str("pane.terminal.toggle").unwrap(), Command::PaneTerminalToggle);
    assert_eq!(Command::from_str("pane.terminal.focus").unwrap(), Command::PaneTerminalFocus);
    assert_eq!(Command::from_str("terminal.new_tab").unwrap(), Command::TerminalNewTab);
    assert_eq!(Command::from_str("terminal.close_tab").unwrap(), Command::TerminalCloseTab);
    assert_eq!(Command::from_str("command_palette.open").unwrap(), Command::CommandPaletteOpen);
    assert!(Command::from_str("does.not.exist").is_err());
}

#[test]
fn empty_global_config_means_first_launch() {
    let config = GlobalConfig::default();
    assert!(config.last_active.is_empty());
}

#[test]
fn missing_file_returns_default() {
    let config = config::GlobalConfig::default();
    assert!(config.vaults.is_empty());
    assert!(config.last_active_vault.is_none());
}

#[test]
fn register_vault_is_idempotent() {
    let mut config = config::GlobalConfig::default();
    let path = "/tmp/test-vault".to_string();

    config::register_vault(&mut config, path.clone());
    // Simulate second registration
    config::register_vault(&mut config, path);

    assert_eq!(config.vaults.len(), 1);
}

#[test]
fn add_vault_promotes_most_recent() {
    let mut config = GlobalConfig::default();
    config.add_vault("a".to_string(), "/v/a".to_string());
    config.add_vault("b".to_string(), "/v/b".to_string());
    config.add_vault("a again".to_string(), "/v/a".to_string());
    assert_eq!(config.vaults.len(), 2);
    assert_eq!(config.last_active, vec!["/v/a".to_string(), "/v/b".to_string()]);
}

#[test]
fn vault_config_default_layout() {
    let config = VaultConfig::default();
    assert!(config.open_tabs.is_empty());
    assert_eq!(config.pane_layout.file_tree_position.as_deref(), Some("left"));
    assert_eq!(config.pane_layout.terminal_position.as_deref(), Some("right"));
    assert!(config.pane_layout.file_tree_visible);
    assert!(!config.pane_layout.terminal_visible);
}

#[test]
fn pane_layout_default_is_empty() {
    let layout = PaneLayout::default();
    assert!(layout.file_tree_position.is_none());
    assert!(!layout.file_tree_visible);
}

#[test]
fn keybindings_resolve_bound_chord() {
    let kb = KeyBindings::new(vec![("cmd+s".to_string(), "file.save".to_string())]);
    assert_eq!(kb.resolve("cmd+s"), Some("file.save"));
}

#[test]
fn keybindings_unknown_chord_returns_none() {
    let kb = KeyBindings::new(vec![]);
    assert_eq!(kb.resolve("cmd+z"), None);
}

#[test]
fn load_for_platform_starts_empty() {
    let kb = KeyBindings::load_for_platform();
    assert_eq!(kb.resolve("cmd+s"), None);
}

#[test]
fn welcome_action_from_hit() {
    assert_eq!(WelcomeAction::from_hit(HitId(1)), WelcomeAction::CreateVault);
    assert_eq!(WelcomeAction::from_hit(HitId(2)), WelcomeAction::OpenVault);
    assert_eq!(WelcomeAction::from_hit(HitId(99)), WelcomeAction::NoAction);
}

#[test]
fn accepted_files_recognize_known_extensions() {
    assert!(is_accepted_file("notes.md"));
    assert!(is_accepted_file("PHOTO.PNG"));
    assert!(is_accepted_file("clip.webm"));
    assert!(!is_accepted_file("program.txt"));
    assert!(!is_accepted_file("md"));
}

fn file(name: &str) -> FileTreeEntry {
    FileTreeEntry {
        name: name.to_string(),
        path: name.to_string(),
        is_directory: false,
        depth: 1,
        children: Vec::new(),
    }
}

fn dir(name: &str, children: Vec<FileTreeEntry>) -> FileTreeEntry {
    FileTreeEntry {
        name: name.to_string(),
        path: name.to_string(),
        is_directory: true,
        depth: 0,
        children,
    }
}

#[test]
fn flatten_walks_depth_first() {
    let tree = vec![
        dir("notes", vec![file("a.md"), file("b.md")]),
        file("readme.md"),
    ];
    let flat = flatten_tree(&tree);
    let names: Vec<&str> = flat.iter().map(|e| e.name.as_str()).collect();
    assert_eq!(names, vec!["notes", "a.md", "b.md", "readme.md"]);
}

#[test]
fn flatten_filtered_skips_collapsed_children() {
    let tree = vec![
        dir("notes", vec![file("todo.md"), file("ideas.md")]),
        file("readme.md"),
    ];
    let collapsed = vec!["notes".to_string()];
    let flat = flatten_tree_filtered(&tree, &collapsed);
    let names: Vec<&str> = flat.iter().map(|e| e.name.as_str()).collect();
    assert!(names.contains(&"notes"));
    assert!(!names.contains(&"todo.md"));
    assert!(!names.contains(&"ideas.md"));
    assert!(names.contains(&"readme.md"));
}

#[test]
fn flatten_filtered_empty_collapsed_matches_flatten() {
    let tree = vec![
        dir("notes", vec![file("todo.md")]),
        file("readme.md"),
    ];
    let flat: Vec<&str> = flatten_tree(&tree).iter().map(|e| e.name.as_str()).collect();
    let filtered: Vec<&str> =
        flatten_tree_filtered(&tree, &Vec::new()).iter().map(|e| e.name.as_str()).collect();
    assert_eq!(flat, filtered);
}

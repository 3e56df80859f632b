//! The typed command vocabulary of the shell, and the mapping from the
//! string keys used in keybinding files to it.

use vstd::prelude::*;
use crate::chars::str_eq;

verus! {

/// A command the shell can dispatch.
#[derive(Debug, Clone, PartialEq, Eq, Structural)]
pub enum Command {
    FileSave,
    PaneFileTreeToggle,
    PaneTerminalToggle,
    PaneTerminalFocus,
    TerminalNewTab,
    TerminalCloseTab,
    CommandPaletteOpen,
}

/// Which command a string key denotes, if any.
pub open spec fn spec_command_from_str(s: Seq<char>) -> Result<Command, ()> {
    if s == ("file.save")@ {
        Ok(Command::FileSave)
    } else if s == ("pane.file_tree.toggle")@ {
        Ok(Command::PaneFileTreeToggle)
    } else if s == ("pane.terminal.toggle")@ {
        Ok(Command::PaneTerminalToggle)
    } else if s == ("pane.terminal.focus")@ {
        Ok(Command::PaneTerminalFocus)
    } else if s == ("terminal.new_tab")@ {
        Ok(Command::TerminalNewTab)
    } else if s == ("terminal.close_tab")@ {
        Ok(Command::TerminalCloseTab)
    } else if s == ("command_palette.open")@ {
        Ok(Command::CommandPaletteOpen)
    } else {
        Err(())
    }
}

impl Command {
    /// Converts the string key used in keybinding files to a typed command.
    pub fn from_str(s: &str) -> (r: Result<Command, ()>)
        ensures
            r == spec_command_from_str(s@),
    {
        if str_eq(s, "file.save") {
            Ok(Command::FileSave)
        } else if str_eq(s, "pane.file_tree.toggle") {
            Ok(Command::PaneFileTreeToggle)
        } else if str_eq(s, "pane.terminal.toggle") {
            Ok(Command::PaneTerminalToggle)
        } else if str_eq(s, "pane.terminal.focus") {
            Ok(Command::PaneTerminalFocus)
        } else if str_eq(s, "terminal.new_tab") {
            Ok(Command::TerminalNewTab)
        } else if str_eq(s, "terminal.close_tab") {
            Ok(Command::TerminalCloseTab)
        } else if str_eq(s, "command_palette.open") {
            Ok(Command::CommandPaletteOpen)
        } else {
            Err(())
        }
    }
}

} // verus!

//! Per-vault and global shell configuration records: open tabs with their
//! cursor and view mode, pane layout, and the list of known vaults with the
//! most recently active ones in front. Reading and writing these records to
//! disk belongs to the host; the records and the rules on them live here.

use vstd::prelude::*;
use vstd::string::StringExecFns;
use crate::chars::str_eq;

verus! {

/// A tab's persisted view mode.
#[derive(Debug, Clone, Copy, PartialEq, Eq, Structural)]
pub enum ViewModeState {
    LivePreview,
    Raw,
}

/// One persisted tab: its file, cursor position, and view mode.
#[derive(Debug, Clone)]
pub struct TabState {
    pub file_path: String,
    pub cursor_line: usize,
    pub cursor_col: usize,
    pub view_mode: ViewModeState,
}

/// Which panes are visible and where they dock.
#[derive(Debug, Clone)]
pub struct PaneLayout {
    pub file_tree_position: Option<String>,
    pub terminal_position: Option<String>,
    pub file_tree_visible: bool,
    pub terminal_visible: bool,
}

impl Default for PaneLayout {
    /// No positions, nothing visible.
    fn default() -> (p: PaneLayout)
        ensures
            p.file_tree_position is None,
            p.terminal_position is None,
            !p.file_tree_visible,
            !p.terminal_visible,
    {
        PaneLayout {
            file_tree_position: None,
            terminal_position: None,
            file_tree_visible: false,
            terminal_visible: false,
        }
    }
}

/// A vault's persisted state: its open tabs and pane layout.
#[derive(Debug, Clone)]
pub struct VaultConfig {
    pub open_tabs: Vec<TabState>,
    pub pane_layout: PaneLayout,
}

impl Default for VaultConfig {
    /// No tabs; the file tree docked left and visible, the terminal docked
    /// right and hidden.
    fn default() -> (c: VaultConfig)
        ensures
            c.open_tabs@.len() == 0,
            c.pane_layout.file_tree_position matches Some(p) && p@ == ("left")@,
            c.pane_layout.terminal_position matches Some(p) && p@ == ("right")@,
            c.pane_layout.file_tree_visible,
            !c.pane_layout.terminal_visible,
    {
        VaultConfig {
            open_tabs: Vec::new(),
            pane_layout: PaneLayout {
                file_tree_position: Some(String::from_str("left")),
                terminal_position: Some(String::from_str("right")),
                file_tree_visible: true,
                terminal_visible: false,
            },
        }
    }
}

/// One known vault: a display name and its root path.
#[derive(Debug, Clone)]
pub struct VaultEntry {
    pub name: String,
    pub path: String,
}

/// Whether some entry already has the given path.
pub open spec fn has_vault_path(vaults: Seq<VaultEntry>, path: Seq<char>) -> bool {
    exists|i: int| 0 <= i < vaults.len() && (#[trigger] vaults[i]).path@ == path
}

/// The list with every occurrence of `path` removed, keeping the order of
/// the rest.
pub open spec fn without_path(la: Seq<String>, path: Seq<char>) -> Seq<String>
    decreases la.len(),
{
    if la.len() == 0 {
        Seq::empty()
    } else if la[0]@ == path {
        without_path(la.drop_first(), path)
    } else {
        seq![la[0]] + without_path(la.drop_first(), path)
    }
}

/// The shell's global state: known vaults, and the most recently active
/// vault paths, most recent first.
#[derive(Debug, Clone)]
pub struct GlobalConfig {
    pub vaults: Vec<VaultEntry>,
    pub last_active: Vec<String>,
}

impl Default for GlobalConfig {
    /// No vaults known yet: the first launch.
    fn default() -> (c: GlobalConfig)
        ensures
            c.vaults@.len() == 0,
            c.last_active@.len() == 0,
    {
        GlobalConfig { vaults: Vec::new(), last_active: Vec::new() }
    }
}

impl GlobalConfig {
    /// Registers a vault unless its path is already known, and promotes the
    /// path to the front of the recently-active list.
    pub fn add_vault(&mut self, name: String, path: String)
        ensures
            final(self).vaults@ == (if has_vault_path(old(self).vaults@, path@) {
                old(self).vaults@
            } else {
                old(self).vaults@.push(VaultEntry { name, path })
            }),
            final(self).last_active@ == seq![path] + without_path(old(self).last_active@, path@),
    {
        let mut known = false;
        let n = self.vaults.len();
        let mut i: usize = 0;
        while i < n
            invariant
                i <= n,
                n == self.vaults@.len(),
                self == old(self),
                known == exists|j: int|
                    0 <= j < i && (#[trigger] self.vaults@[j]).path@ == path@,
            decreases n - i,
        {
            if str_eq(self.vaults[i].path.as_str(), path.as_str()) {
                known = true;
            }
            i = i + 1;
        }
        if !known {
            let entry = VaultEntry { name, path: path.clone() };
            proof {
                assert(entry.path@ == path@);
            }
            self.vaults.push(entry);
        }
        let mut old_list: Vec<String> = Vec::new();
        std::mem::swap(&mut self.last_active, &mut old_list);
        let mut fresh: Vec<String> = Vec::new();
        fresh.push(path.clone());
        let m = old_list.len();
        let mut k: usize = 0;
        proof {
            assert(fresh@ =~= seq![path] + without_path(old_list@.take(0), path@));
        }
        while k < m
            invariant
                k <= m,
                m == old_list@.len(),
                fresh@ == seq![path] + without_path(old_list@.take(k as int), path@),
            decreases m - k,
        {
            let keep = !str_eq(old_list[k].as_str(), path.as_str());
            if keep {
                fresh.push(old_list[k].clone());
            }
            k = k + 1;
            proof {
                lemma_without_path_snoc(old_list@.take(k - 1), old_list@[k - 1], path@);
                assert(old_list@.take(k as int) =~= old_list@.take(k - 1).push(old_list@[k - 1]));
                if keep {
                    assert(fresh@ =~= seq![path] + without_path(old_list@.take(k as int), path@));
                } else {
                    assert(fresh@ =~= seq![path] + without_path(old_list@.take(k as int), path@));
                }
            }
        }
        proof {
            assert(old_list@.take(m as int) =~= old_list@);
        }
        self.last_active = fresh;
    }
}

/// Filtering one more element keeps it exactly when its view differs.
proof fn lemma_without_path_snoc(la: Seq<String>, x: String, path: Seq<char>)
    ensures
        without_path(la.push(x), path) == (if x@ == path {
            without_path(la, path)
        } else {
            without_path(la, path) + seq![x]
        }),
    decreases la.len(),
{
    assert(la.push(x).len() == la.len() + 1);
    if la.len() == 0 {
        assert(la.push(x)[0] == x);
        assert(la.push(x).drop_first() =~= Seq::<String>::empty());
        if x@ != path {
            assert(seq![x] + without_path(Seq::<String>::empty(), path) =~= without_path(
                Seq::<String>::empty(),
                path,
            ) + seq![x]);
        }
    } else {
        assert(la.push(x)[0] == la[0]);
        assert(la.push(x).drop_first() =~= la.drop_first().push(x));
        lemma_without_path_snoc(la.drop_first(), x, path);
        if la[0]@ != path && x@ != path {
            assert(seq![la[0]] + (without_path(la.drop_first(), path) + seq![x]) =~= (seq![la[0]]
                + without_path(la.drop_first(), path)) + seq![x]);
        }
    }
}

} // verus!

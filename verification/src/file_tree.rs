//! The vault's file tree as data: nested entries, the rule deciding which
//! file names belong in the tree, and the flattening of the tree into a
//! depth-ordered list for rendering. Scanning directories on disk is the
//! host's work; it builds the entries and calls in here.

use vstd::prelude::*;
use crate::chars::str_chars;

verus! {

/// A single entry (file or directory) in the vault's file tree.
#[derive(Debug)]
pub struct FileTreeEntry {
    pub name: String,
    pub path: String,
    pub is_directory: bool,
    pub depth: usize,
    pub children: Vec<FileTreeEntry>,
}

/// The lower-cased form of a string, as `str::to_lowercase` computes it; a
/// function of the characters alone.
pub uninterp spec fn lower_of(s: Seq<char>) -> Seq<char>;

/// Relies on `str::to_lowercase`: the result depends on the characters
/// alone.
#[verifier::external_body]
fn to_lowercase_str(s: &str) -> (r: String)
    ensures
        r@ == lower_of(s@),
{
    s.to_lowercase()
}

/// Whether `s` ends with `suffix`.
pub open spec fn ends_with(s: Seq<char>, suffix: Seq<char>) -> bool {
    s.len() >= suffix.len() && s.subrange(s.len() - suffix.len(), s.len() as int) == suffix
}

/// The file extensions the tree accepts, lower-cased: documents, images,
/// audio and video.
pub open spec fn spec_accepted(lower: Seq<char>) -> bool {
    ||| ends_with(lower, (".md")@)
    ||| ends_with(lower, (".canvas")@)
    ||| ends_with(lower, (".pdf")@)
    ||| ends_with(lower, (".avif")@)
    ||| ends_with(lower, (".bmp")@)
    ||| ends_with(lower, (".gif")@)
    ||| ends_with(lower, (".jpeg")@)
    ||| ends_with(lower, (".jpg")@)
    ||| ends_with(lower, (".png")@)
    ||| ends_with(lower, (".svg")@)
    ||| ends_with(lower, (".webp")@)
    ||| ends_with(lower, (".flac")@)
    ||| ends_with(lower, (".m4a")@)
    ||| ends_with(lower, (".mp3")@)
    ||| ends_with(lower, (".ogg")@)
    ||| ends_with(lower, (".wav")@)
    ||| ends_with(lower, (".3gp")@)
    ||| ends_with(lower, (".mkv")@)
    ||| ends_with(lower, (".mov")@)
    ||| ends_with(lower, (".mp4")@)
    ||| ends_with(lower, (".ogv")@)
    ||| ends_with(lower, (".webm")@)
}

/// Whether the characters of `s` end with those of `suffix`.
fn chars_end_with(s: &Vec<char>, suffix: &str) -> (r: bool)
    ensures
        r == ends_with(s@, suffix@),
{
    let sv = str_chars(suffix);
    let m = sv.len();
    let n = s.len();
    if n < m {
        return false;
    }
    let mut i: usize = 0;
    while i < m
        invariant
            i <= m,
            m == suffix@.len(),
            m <= n,
            n == s@.len(),
            sv@ == suffix@,
            forall|j: int| 0 <= j < i ==> s@[n - m + j] == suffix@[j],
        decreases m - i,
    {
        if s[n - m + i] != sv[i] {
            proof {
                if ends_with(s@, suffix@) {
                    assert(s@.subrange(n - m, n as int)[i as int] == s@[n - m + i]);
                }
            }
            return false;
        }
        i = i + 1;
    }
    proof {
        assert(s@.subrange(n - m, n as int) =~= suffix@);
    }
    true
}

/// Whether a file name has a recognized extension for the file tree,
/// comparing its lower-cased form.
pub fn is_accepted_file(name: &str) -> (r: bool)
    ensures
        r == spec_accepted(lower_of(name@)),
{
    let lower = to_lowercase_str(name);
    let lc = str_chars(lower.as_str());
    chars_end_with(&lc, ".md") || chars_end_with(&lc, ".canvas") || chars_end_with(&lc, ".pdf")
        || chars_end_with(&lc, ".avif") || chars_end_with(&lc, ".bmp") || chars_end_with(
        &lc,
        ".gif",
    ) || chars_end_with(&lc, ".jpeg") || chars_end_with(&lc, ".jpg") || chars_end_with(&lc, ".png")
        || chars_end_with(&lc, ".svg") || chars_end_with(&lc, ".webp") || chars_end_with(
        &lc,
        ".flac",
    ) || chars_end_with(&lc, ".m4a") || chars_end_with(&lc, ".mp3") || chars_end_with(&lc, ".ogg")
        || chars_end_with(&lc, ".wav") || chars_end_with(&lc, ".3gp") || chars_end_with(
        &lc,
        ".mkv",
    ) || chars_end_with(&lc, ".mov") || chars_end_with(&lc, ".mp4") || chars_end_with(&lc, ".ogv")
        || chars_end_with(&lc, ".webm")
}

/// The depth-first flattening of a tree: each entry followed by its
/// children when it is a directory.
pub open spec fn spec_flatten(s: Seq<FileTreeEntry>) -> Seq<FileTreeEntry>
    decreases s,
{
    if s.len() == 0 {
        Seq::empty()
    } else {
        seq![s[0]] + (if s[0].is_directory {
            spec_flatten(s[0].children@)
        } else {
            Seq::empty()
        }) + spec_flatten(s.drop_first())
    }
}

/// The flattening that skips the children of collapsed directories.
pub open spec fn spec_flatten_filtered(
    s: Seq<FileTreeEntry>,
    collapsed: Seq<Seq<char>>,
) -> Seq<FileTreeEntry>
    decreases s,
{
    if s.len() == 0 {
        Seq::empty()
    } else {
        seq![s[0]] + (if s[0].is_directory && !collapsed.contains(s[0].path@) {
            spec_flatten_filtered(s[0].children@, collapsed)
        } else {
            Seq::empty()
        }) + spec_flatten_filtered(s.drop_first(), collapsed)
    }
}

/// The entries a sequence of borrowed entries points at.
pub open spec fn deref_entries(s: Seq<&FileTreeEntry>) -> Seq<FileTreeEntry> {
    s.map_values(|e: &FileTreeEntry| *e)
}

/// Flattening distributes over appending one more root entry.
proof fn lemma_flatten_snoc(s: Seq<FileTreeEntry>, x: FileTreeEntry)
    ensures
        spec_flatten(s.push(x)) == spec_flatten(s) + (seq![x] + (if x.is_directory {
            spec_flatten(x.children@)
        } else {
            Seq::empty()
        })),
    decreases s.len(),
{
    let tail = seq![x] + (if x.is_directory {
        spec_flatten(x.children@)
    } else {
        Seq::empty()
    });
    assert(s.push(x).len() == s.len() + 1);
    if s.len() == 0 {
        assert(s.push(x)[0] == x);
        assert(s.push(x).drop_first() =~= Seq::<FileTreeEntry>::empty());
        assert(spec_flatten(Seq::<FileTreeEntry>::empty()) =~= Seq::<FileTreeEntry>::empty());
        assert(spec_flatten(s.push(x)) =~= spec_flatten(s) + tail);
    } else {
        assert(s.push(x)[0] == s[0]);
        assert(s.push(x).drop_first() =~= s.drop_first().push(x));
        lemma_flatten_snoc(s.drop_first(), x);
        assert(spec_flatten(s.push(x)) =~= spec_flatten(s) + tail);
    }
}

/// The filtered flattening distributes the same way.
proof fn lemma_flatten_filtered_snoc(
    s: Seq<FileTreeEntry>,
    x: FileTreeEntry,
    collapsed: Seq<Seq<char>>,
)
    ensures
        spec_flatten_filtered(s.push(x), collapsed) == spec_flatten_filtered(s, collapsed) + (
        seq![x] + (if x.is_directory && !collapsed.contains(x.path@) {
            spec_flatten_filtered(x.children@, collapsed)
        } else {
            Seq::empty()
        })),
    decreases s.len(),
{
    let tail = seq![x] + (if x.is_directory && !collapsed.contains(x.path@) {
        spec_flatten_filtered(x.children@, collapsed)
    } else {
        Seq::empty()
    });
    assert(s.push(x).len() == s.len() + 1);
    if s.len() == 0 {
        assert(s.push(x)[0] == x);
        assert(s.push(x).drop_first() =~= Seq::<FileTreeEntry>::empty());
        assert(spec_flatten_filtered(Seq::<FileTreeEntry>::empty(), collapsed)
            =~= Seq::<FileTreeEntry>::empty());
        assert(spec_flatten_filtered(s.push(x), collapsed) =~= spec_flatten_filtered(s, collapsed)
            + tail);
    } else {
        assert(s.push(x)[0] == s[0]);
        assert(s.push(x).drop_first() =~= s.drop_first().push(x));
        lemma_flatten_filtered_snoc(s.drop_first(), x, collapsed);
        assert(spec_flatten_filtered(s.push(x), collapsed) =~= spec_flatten_filtered(s, collapsed)
            + tail);
    }
}

/// Flattens a nested file tree into a depth-ordered list for rendering.
pub fn flatten_tree<'a>(entries: &'a Vec<FileTreeEntry>) -> (r: Vec<&'a FileTreeEntry>)
    ensures
        deref_entries(r@) == spec_flatten(entries@),
    decreases entries@,
{
    let mut r: Vec<&'a FileTreeEntry> = Vec::new();
    let n = entries.len();
    let mut i: usize = 0;
    proof {
        assert(deref_entries(r@) =~= spec_flatten(entries@.take(0)));
        assert(spec_flatten(Seq::<FileTreeEntry>::empty()) =~= Seq::<FileTreeEntry>::empty());
        assert(entries@.take(0) =~= Seq::<FileTreeEntry>::empty());
    }
    while i < n
        invariant
            i <= n,
            n == entries@.len(),
            deref_entries(r@) == spec_flatten(entries@.take(i as int)),
        decreases n - i,
    {
        let entry = &entries[i];
        let ghost pre = r@;
        r.push(entry);
        proof {
            assert(deref_entries(r@) =~= deref_entries(pre).push(entries@[i as int]));
        }
        if entry.is_directory {
            proof {
                assert(decreases_to!(entries@ => entries@[i as int]));
            }
            let mut sub = flatten_tree(&entry.children);
            let ghost pre2 = r@;
            let ghost subv = sub@;
            r.append(&mut sub);
            proof {
                assert(deref_entries(r@) =~= deref_entries(pre2) + deref_entries(subv));
            }
        }
        i = i + 1;
        proof {
            lemma_flatten_snoc(entries@.take(i - 1), entries@[i - 1]);
            assert(entries@.take(i as int) =~= entries@.take(i - 1).push(entries@[i - 1]));
            assert(deref_entries(r@) =~= spec_flatten(entries@.take(i as int)));
        }
    }
    proof {
        assert(entries@.take(n as int) =~= entries@);
    }
    r
}

/// Whether a collapsed-set entry matches the given path.
fn paths_contain(collapsed: &Vec<String>, path: &str) -> (r: bool)
    ensures
        r == collapsed@.map_values(|p: String| p@).contains(path@),
{
    let ghost cv = collapsed@.map_values(|p: String| p@);
    let n = collapsed.len();
    let mut i: usize = 0;
    while i < n
        invariant
            i <= n,
            n == collapsed@.len(),
            cv == collapsed@.map_values(|p: String| p@),
            forall|j: int| 0 <= j < i ==> cv[j] != path@,
        decreases n - i,
    {
        if crate::chars::str_eq(collapsed[i].as_str(), path) {
            proof {
                assert(cv[i as int] == path@);
            }
            return true;
        }
        i = i + 1;
    }
    proof {
        if cv.contains(path@) {
            let j = choose|j: int| 0 <= j < cv.len() && cv[j] == path@;
            assert(false);
        }
    }
    false
}

/// Flattens the tree but skips the children of directories whose paths are
/// in `collapsed`.
pub fn flatten_tree_filtered<'a>(
    entries: &'a Vec<FileTreeEntry>,
    collapsed: &Vec<String>,
) -> (r: Vec<&'a FileTreeEntry>)
    ensures
        deref_entries(r@) == spec_flatten_filtered(
            entries@,
            collapsed@.map_values(|p: String| p@),
        ),
    decreases entries@,
{
    let ghost cv = collapsed@.map_values(|p: String| p@);
    let mut r: Vec<&'a FileTreeEntry> = Vec::new();
    let n = entries.len();
    let mut i: usize = 0;
    proof {
        assert(entries@.take(0) =~= Seq::<FileTreeEntry>::empty());
        assert(spec_flatten_filtered(Seq::<FileTreeEntry>::empty(), cv)
            =~= Seq::<FileTreeEntry>::empty());
        assert(deref_entries(r@) =~= spec_flatten_filtered(entries@.take(0), cv));
    }
    while i < n
        invariant
            i <= n,
            n == entries@.len(),
            cv == collapsed@.map_values(|p: String| p@),
            deref_entries(r@) == spec_flatten_filtered(entries@.take(i as int), cv),
        decreases n - i,
    {
        let entry = &entries[i];
        let ghost pre = r@;
        r.push(entry);
        proof {
            assert(deref_entries(r@) =~= deref_entries(pre).push(entries@[i as int]));
        }
        if entry.is_directory && !paths_contain(collapsed, entry.path.as_str()) {
            proof {
                assert(decreases_to!(entries@ => entries@[i as int]));
            }
            let mut sub = flatten_tree_filtered(&entry.children, collapsed);
            let ghost pre2 = r@;
            let ghost subv = sub@;
            r.append(&mut sub);
            proof {
                assert(deref_entries(r@) =~= deref_entries(pre2) + deref_entries(subv));
            }
        }
        i = i + 1;
        proof {
            lemma_flatten_filtered_snoc(entries@.take(i - 1), entries@[i - 1], cv);
            assert(entries@.take(i as int) =~= entries@.take(i - 1).push(entries@[i - 1]));
            assert(deref_entries(r@) =~= spec_flatten_filtered(entries@.take(i as int), cv));
        }
    }
    proof {
        assert(entries@.take(n as int) =~= entries@);
    }
    r
}

} // verus!

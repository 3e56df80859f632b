//! Keybindings: an ordered map from chord strings to command names. The
//! host reads a platform bindings file and hands the pairs over; resolving
//! a chord finds its first binding.

use vstd::prelude::*;
use crate::chars::str_eq;

verus! {

/// The first value bound to `key`, scanning the pairs in order.
pub open spec fn lookup(m: Seq<(Seq<char>, Seq<char>)>, key: Seq<char>) -> Option<Seq<char>>
    decreases m.len(),
{
    if m.len() == 0 {
        None
    } else if m[0].0 == key {
        Some(m[0].1)
    } else {
        lookup(m.drop_first(), key)
    }
}

/// A chord-to-command map.
pub struct KeyBindings {
    map: Vec<(String, String)>,
}

impl View for KeyBindings {
    type V = Seq<(Seq<char>, Seq<char>)>;

    closed spec fn view(&self) -> Seq<(Seq<char>, Seq<char>)> {
        self.map@.map_values(|p: (String, String)| (p.0@, p.1@))
    }
}

impl KeyBindings {
    /// Builds the map from chord/command pairs.
    pub fn new(pairs: Vec<(String, String)>) -> (k: KeyBindings)
        ensures
            k@ == pairs@.map_values(|p: (String, String)| (p.0@, p.1@)),
    {
        KeyBindings { map: pairs }
    }

    /// The bindings a build of this library starts with: none. Platform
    /// bindings files belong to the host, which loads them and calls
    /// [`KeyBindings::new`].
    pub fn load_for_platform() -> (k: KeyBindings)
        ensures
            k@ == Seq::<(Seq<char>, Seq<char>)>::empty(),
    {
        let k = KeyBindings { map: Vec::new() };
        proof {
            assert(k@ =~= Seq::<(Seq<char>, Seq<char>)>::empty());
        }
        k
    }

    /// Returns the command name bound to a chord, or `None` if the chord is
    /// not bound.
    pub fn resolve(&self, chord: &str) -> (r: Option<&str>)
        ensures
            r matches Some(s) ==> lookup(self@, chord@) == Some(s@),
            r is None ==> lookup(self@, chord@) is None,
    {
        let n = self.map.len();
        let mut i: usize = 0;
        proof {
            assert(self@.skip(0) =~= self@);
        }
        while i < n
            invariant
                i <= n,
                n == self.map@.len(),
                lookup(self@, chord@) == lookup(self@.skip(i as int), chord@),
            decreases n - i,
        {
            proof {
                assert(self@.skip(i as int)[0] == (self.map@[i as int].0@, self.map@[i as int].1@));
                assert(self@.skip(i as int).drop_first() =~= self@.skip(i + 1));
            }
            if str_eq(self.map[i].0.as_str(), chord) {
                return Some(self.map[i].1.as_str());
            }
            i = i + 1;
        }
        proof {
            assert(self@.skip(n as int) =~= Seq::<(Seq<char>, Seq<char>)>::empty());
        }
        None
    }
}

} // verus!

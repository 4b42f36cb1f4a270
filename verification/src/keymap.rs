//! User actions and the key-to-action mapping.
//!
//! The mapping is a plain injectable list of bindings; resolving a key is a
//! pure lookup, so no global table is needed. The application translates
//! whatever its input source yields into characters before asking.

use vstd::prelude::*;

verus! {

/// A discrete user action the controller reacts to.
#[derive(Clone, Copy, Debug, PartialEq, Eq, Structural)]
pub enum Action {
    Quit,
    PlayPause,
    Next,
    Prev,
}

/// The first binding for `c` in the list, if any.
pub open spec fn spec_resolve(bs: Seq<(char, Action)>, c: char) -> Option<Action>
    decreases bs.len(),
{
    if bs.len() == 0 {
        None
    } else if bs[0].0 == c {
        Some(bs[0].1)
    } else {
        spec_resolve(bs.drop_first(), c)
    }
}

/// The standard bindings: `q` quits, `[` and `]` step backward and forward,
/// `p` and space toggle pause.
pub open spec fn default_bindings() -> Seq<(char, Action)> {
    seq![
        ('q', Action::Quit),
        ('[', Action::Prev),
        (']', Action::Next),
        ('p', Action::PlayPause),
        (' ', Action::PlayPause),
    ]
}

/// An ordered list of key bindings.
pub struct Keymaps {
    bindings: Vec<(char, Action)>,
}

impl View for Keymaps {
    type V = Seq<(char, Action)>;

    closed spec fn view(&self) -> Seq<(char, Action)> {
        self.bindings@
    }
}

impl Keymaps {
    /// A mapping from an explicit list of bindings.
    pub fn from_bindings(bindings: Vec<(char, Action)>) -> (r: Keymaps)
        ensures
            r@ == bindings@,
    {
        Keymaps { bindings }
    }

    /// The bindings in order, for display.
    pub fn bindings(&self) -> (r: Vec<(char, Action)>)
        ensures
            r@ == self@,
    {
        let n = self.bindings.len();
        let mut r: Vec<(char, Action)> = Vec::new();
        let mut i: usize = 0;
        while i < n
            invariant
                n == self@.len(),
                i <= n,
                r@.len() == i,
                forall|j: int| 0 <= j < i ==> r@[j] == self@[j],
            decreases n - i,
        {
            r.push(self.bindings[i]);
            i += 1;
        }
        proof {
            assert(r@ =~= self@);
        }
        r
    }

    /// Looks the character up, returning its first binding.
    pub fn resolve(&self, c: char) -> (r: Option<Action>)
        ensures
            r == spec_resolve(self@, c),
    {
        let n = self.bindings.len();
        let mut i: usize = 0;
        proof {
            assert(self@.skip(0) =~= self@);
        }
        while i < n
            invariant
                n == self@.len(),
                i <= n,
                spec_resolve(self@, c) == spec_resolve(self@.skip(i as int), c),
            decreases n - i,
        {
            proof {
                assert(self@.skip(i as int)[0] == self@[i as int]);
                assert(self@.skip(i as int).drop_first() =~= self@.skip(i as int + 1));
            }
            let (k, a) = self.bindings[i];
            if k == c {
                return Some(a);
            }
            i += 1;
        }
        None
    }
}

impl Default for Keymaps {
    /// The standard bindings.
    fn default() -> (r: Keymaps)
        ensures
            r@ == default_bindings(),
    {
        let mut bindings: Vec<(char, Action)> = Vec::new();
        bindings.push(('q', Action::Quit));
        bindings.push(('[', Action::Prev));
        bindings.push((']', Action::Next));
        bindings.push(('p', Action::PlayPause));
        bindings.push((' ', Action::PlayPause));
        proof {
            assert(bindings@ =~= default_bindings());
        }
        Keymaps { bindings }
    }
}

} // verus!

use vstd::prelude::*;

use crate::token::INIContext;

verus! {

/// The parse result: the ordered token sequence of a document, the synthetic
/// default section first.  Immutable after construction; the only operations
/// are read-only lookups.
#[derive(Debug)]
pub struct INITree {
    pub(crate) leaves: Vec<(INIContext, String)>,
}

impl View for INITree {
    type V = Seq<(INIContext, Seq<char>)>;

    closed spec fn view(&self) -> Seq<(INIContext, Seq<char>)> {
        self.leaves@.map_values(|l: (INIContext, String)| (l.0, l.1@))
    }
}

/// What the lookup scan decides from position `i` on, carrying its two flags:
/// a section token re-evaluates `in_section`; a key token that matches sets
/// `key_seen`, which then deliberately stays set for good (see the crate
/// doc); a value token met under both flags is the answer.  Comment tokens
/// change nothing.
pub open spec fn search_at(
    leaves: Seq<(INIContext, Seq<char>)>,
    i: int,
    in_section: bool,
    key_seen: bool,
    section: Seq<char>,
    key: Seq<char>,
) -> Option<Seq<char>>
    decreases leaves.len() - i,
{
    if i < 0 || i >= leaves.len() {
        None
    } else {
        match leaves[i].0 {
            INIContext::Section => search_at(
                leaves,
                i + 1,
                leaves[i].1 == section,
                key_seen,
                section,
                key,
            ),
            INIContext::Key => search_at(
                leaves,
                i + 1,
                in_section,
                key_seen || leaves[i].1 == key,
                section,
                key,
            ),
            INIContext::Value => if in_section && key_seen {
                Some(leaves[i].1)
            } else {
                search_at(leaves, i + 1, in_section, key_seen, section, key)
            },
            _ => search_at(leaves, i + 1, in_section, key_seen, section, key),
        }
    }
}

/// The value a `(section, key)` lookup finds in a token sequence: the whole
/// scan, started at the top with both flags down.
pub open spec fn search_spec(
    leaves: Seq<(INIContext, Seq<char>)>,
    section: Seq<char>,
    key: Seq<char>,
) -> Option<Seq<char>> {
    search_at(leaves, 0, false, false, section, key)
}

impl INITree {
    /// A tree with no tokens yet: what the parser starts from, before it
    /// prepends the default section.
    pub(crate) fn with_no_leaves() -> (t: INITree)
        ensures
            t@ =~= Seq::<(INIContext, Seq<char>)>::empty(),
    {
        INITree { leaves: Vec::new() }
    }

    /// Appends one token at the end of the sequence.
    pub(crate) fn push_leaf(&mut self, tag: INIContext, text: String)
        ensures
            final(self)@ =~= old(self)@.push((tag, text@)),
    {
        let ghost pre = self.leaves@;
        let ghost tv = text@;
        self.leaves.push((tag, text));
        proof {
            assert(self@ =~= old(self)@.push((tag, tv)));
        }
    }

    /// Looks a key up in a section: one scan over the token sequence, top to
    /// bottom, returning the first value token met while the most recent
    /// section token matched `section` and some key token has matched `cle`.
    pub fn search(&self, section: String, cle: String) -> (r: Option<String>)
        ensures
            match r {
                Some(v) => search_spec(self@, section@, cle@) == Some(v@),
                None => search_spec(self@, section@, cle@) is None,
            },
    {
        let mut c1: bool = false;
        let mut c2: bool = false;
        let n: usize = self.leaves.len();
        let mut i: usize = 0;
        while i < n
            invariant
                n == self.leaves.len(),
                i <= n,
                search_spec(self@, section@, cle@) == search_at(
                    self@,
                    i as int,
                    c1,
                    c2,
                    section@,
                    cle@,
                ),
            decreases n - i,
        {
            proof {
                assert(self@[i as int] == (self.leaves@[i as int].0, self.leaves@[i as int].1@));
            }
            let feuille = &self.leaves[i];
            match feuille.0 {
                INIContext::Section => {
                    c1 = feuille.1 == section;
                },
                INIContext::Key => {
                    if feuille.1 == cle {
                        c2 = true;
                    }
                },
                INIContext::Value => {
                    if c1 && c2 {
                        return Some(feuille.1.clone());
                    }
                },
                _ => {},
            }
            i = i + 1;
        }
        None
    }

    /// How many tokens the document produced, the default section included.
    pub fn leaf_count(&self) -> (n: usize)
        ensures
            n == self@.len(),
    {
        self.leaves.len()
    }

    /// The token at a position: its tag and a copy of its text.
    pub fn leaf(&self, i: usize) -> (r: (INIContext, String))
        requires
            i < self@.len(),
        ensures
            r.0 == self@[i as int].0,
            r.1@ == self@[i as int].1,
    {
        proof {
            assert(self@[i as int] == (self.leaves@[i as int].0, self.leaves@[i as int].1@));
        }
        let l = &self.leaves[i];
        (l.0, l.1.clone())
    }
}

} // verus!

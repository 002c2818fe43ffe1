//! The reviewed source files of a repository, each with the hash recorded for it.

use vstd::prelude::*;

use crate::ordered::{ascending, lemma_place, lemma_with_key, place, with_key};
use crate::text::{comes_before, same_text, text_less, text_less_irreflexive};

verus! {

/// Paths with the hash recorded for each.
pub open spec fn paths(entries: Seq<(Seq<char>, Seq<char>)>) -> Seq<Seq<char>> {
    entries.map_values(|e: (Seq<char>, Seq<char>)| e.0)
}

/// The hash recorded for a path, if there is one.
pub open spec fn recorded(entries: Seq<(Seq<char>, Seq<char>)>, path: Seq<char>) -> Option<Seq<char>> {
    if paths(entries).contains(path) {
        Some(entries[paths(entries).index_of(path)].1)
    } else {
        None
    }
}

/// The entries with `hash` recorded for `path`: in place of what was recorded
/// for it, or at the path's place in the order of strings.
pub open spec fn with_entry(
    entries: Seq<(Seq<char>, Seq<char>)>,
    path: Seq<char>,
    hash: Seq<char>,
) -> Seq<(Seq<char>, Seq<char>)> {
    let at = place(paths(entries), path);
    if at < entries.len() && entries[at].0 == path {
        entries.update(at, (path, hash))
    } else {
        entries.insert(at, (path, hash))
    }
}

/// A map from source paths to hashes, ordered by path.
#[derive(Debug, PartialEq, Eq)]
pub struct SourceFiles {
    entries: Vec<(String, String)>,
}

impl View for SourceFiles {
    type V = Seq<(Seq<char>, Seq<char>)>;

    closed spec fn view(&self) -> Seq<(Seq<char>, Seq<char>)> {
        self.entries@.map_values(|e: (String, String)| (e.0@, e.1@))
    }
}

/// In ascending entries a path stands in one place only.
pub proof fn lemma_recorded_at(entries: Seq<(Seq<char>, Seq<char>)>, at: int)
    requires
        ascending(paths(entries)),
        0 <= at < entries.len(),
    ensures
        paths(entries).contains(entries[at].0),
        paths(entries).index_of(entries[at].0) == at,
        recorded(entries, entries[at].0) == Some(entries[at].1),
{
    let keys = paths(entries);
    assert(keys[at] == entries[at].0);
    let i = keys.index_of(entries[at].0);
    if i < at {
        assert(text_less(keys[i], keys[at]));
        text_less_irreflexive(keys[at]);
    } else if at < i {
        assert(text_less(keys[at], keys[i]));
        text_less_irreflexive(keys[at]);
    }
}

/// Recording a hash for a path changes what is recorded for that path and for no other.
pub proof fn recording_changes_one_path(
    entries: Seq<(Seq<char>, Seq<char>)>,
    path: Seq<char>,
    hash: Seq<char>,
    other: Seq<char>,
)
    requires
        ascending(paths(entries)),
    ensures
        ascending(paths(with_entry(entries, path, hash))),
        recorded(with_entry(entries, path, hash), path) == Some(hash),
        other != path ==> recorded(with_entry(entries, path, hash), other) == recorded(
            entries,
            other,
        ),
{
    let keys = paths(entries);
    let new = with_entry(entries, path, hash);
    let at = place(keys, path);
    lemma_place(keys, path);
    lemma_with_key(keys, path);
    assert(paths(new) =~= with_key(keys, path)) by {
        if at < entries.len() {
            assert(keys[at] == entries[at].0);
        }
    }
    assert(new[at] == (path, hash));
    lemma_recorded_at(new, at);
    if other != path {
        assert(paths(new).contains(other) <==> keys.contains(other));
        if keys.contains(other) {
            let i = keys.index_of(other);
            lemma_recorded_at(entries, i);
            let j = if at < entries.len() && entries[at].0 == path || i < at {
                i
            } else {
                i + 1
            };
            assert(new[j] == entries[i]);
            lemma_recorded_at(new, j);
        }
    }
}

impl Clone for SourceFiles {
    fn clone(&self) -> (r: SourceFiles)
        ensures
            r@ == self@,
    {
        proof {
            use_type_invariant(self);
        }
        let mut entries: Vec<(String, String)> = Vec::new();
        let mut i: usize = 0;
        while i < self.entries.len()
            invariant
                i <= self.entries@.len(),
                entries@ == self.entries@.take(i as int),
            decreases self.entries.len() - i,
        {
            entries.push((self.entries[i].0.clone(), self.entries[i].1.clone()));
            i += 1;
            assert(entries@ =~= self.entries@.take(i as int));
        }
        assert(entries@ =~= self.entries@);
        SourceFiles { entries }
    }
}

impl SourceFiles {
    /// The paths stand in the order of strings, each once.
    #[verifier::type_invariant]
    pub open spec fn in_order(self) -> bool {
        ascending(paths(self@))
    }

    /// No source files.
    pub fn new() -> (r: SourceFiles)
        ensures
            r@ == Seq::<(Seq<char>, Seq<char>)>::empty(),
    {
        let entries: Vec<(String, String)> = Vec::new();
        assert(entries@.map_values(|e: (String, String)| (e.0@, e.1@)) =~= Seq::<
            (Seq<char>, Seq<char>),
        >::empty());
        SourceFiles { entries }
    }

    /// How many source files there are.
    pub fn len(&self) -> (r: usize)
        ensures
            r == self@.len(),
            ascending(paths(self@)),
    {
        proof {
            use_type_invariant(self);
        }
        self.entries.len()
    }

    /// Whether there are no source files.
    pub fn is_empty(&self) -> (r: bool)
        ensures
            r == (self@.len() == 0),
    {
        self.entries.len() == 0
    }

    /// The path at a position, in the order of strings.
    pub fn path(&self, at: usize) -> (r: &str)
        requires
            at < self@.len(),
        ensures
            r@ == self@[at as int].0,
    {
        self.entries[at].0.as_str()
    }

    /// The hash recorded for the path at a position.
    pub fn hash(&self, at: usize) -> (r: &str)
        requires
            at < self@.len(),
        ensures
            r@ == self@[at as int].1,
    {
        self.entries[at].1.as_str()
    }

    /// The position of a path.
    pub fn position(&self, path: &str) -> (r: Option<usize>)
        ensures
            match r {
                Some(at) => at < self@.len() && self@[at as int].0 == path@ && recorded(
                    self@,
                    path@,
                ) == Some(self@[at as int].1),
                None => recorded(self@, path@) is None,
            },
    {
        proof {
            use_type_invariant(self);
        }
        let mut i: usize = 0;
        while i < self.entries.len()
            invariant
                ascending(paths(self@)),
                i <= self@.len() == self.entries@.len(),
                forall|j: int| 0 <= j < i ==> (#[trigger] self@[j]).0 != path@,
            decreases self.entries.len() - i,
        {
            if same_text(self.entries[i].0.as_str(), path) {
                proof {
                    lemma_recorded_at(self@, i as int);
                }
                return Some(i);
            }
            assert(self@[i as int].0 == self.entries@[i as int].0@);
            i += 1;
        }
        proof {
            if paths(self@).contains(path@) {
                let j = choose|j: int| 0 <= j < self@.len() && paths(self@)[j] == path@;
                assert(self@[j].0 == path@);
            }
        }
        None
    }

    /// The hash recorded for a path.
    pub fn get(&self, path: &str) -> (r: Option<&str>)
        ensures
            match r {
                Some(hash) => recorded(self@, path@) == Some(hash@),
                None => recorded(self@, path@) is None,
            },
    {
        match self.position(path) {
            Some(at) => Some(self.hash(at)),
            None => None,
        }
    }

    /// Records a hash for a path, and hands back what was recorded for it.
    pub fn insert(&mut self, path: String, hash: String) -> (r: Option<String>)
        ensures
            final(self)@ == with_entry(old(self)@, path@, hash@),
            match r {
                Some(previous) => recorded(old(self)@, path@) == Some(previous@),
                None => recorded(old(self)@, path@) is None,
            },
    {
        proof {
            use_type_invariant(&*self);
        }
        let ghost before = self@;
        let previous: Option<String> = match self.get(path.as_str()) {
            Some(hash) => Some(hash.to_owned()),
            None => None,
        };
        let mut entries: Vec<(String, String)> = Vec::new();
        let mut at: usize = 0;
        core::mem::swap(&mut entries, &mut self.entries);
        let ghost held = entries@;
        while at < entries.len() && comes_before(entries[at].0.as_str(), path.as_str())
            invariant
                entries@ == held,
                before == held.map_values(|e: (String, String)| (e.0@, e.1@)),
                at <= entries@.len(),
                forall|i: int| 0 <= i < at ==> text_less(#[trigger] paths(before)[i], path@),
            decreases entries.len() - at,
        {
            assert(paths(before)[at as int] == entries@[at as int].0@);
            at += 1;
        }
        proof {
            recording_changes_one_path(before, path@, hash@, path@);
            lemma_place(paths(before), path@);
            let p = place(paths(before), path@);
            if at < entries@.len() {
                assert(paths(before)[at as int] == entries@[at as int].0@);
            }
            if p < at {
                assert(!text_less(paths(before)[p], path@));
            } else if at < p {
                assert(text_less(paths(before)[at as int], path@));
            }
        }
        let ghost new = with_entry(before, path@, hash@);
        if at < entries.len() && same_text(entries[at].0.as_str(), path.as_str()) {
            entries[at] = (path, hash);
        } else {
            entries.insert(at, (path, hash));
        }
        assert(entries@.map_values(|e: (String, String)| (e.0@, e.1@)) =~= new);
        self.entries = entries;
        previous
    }

    /// Forgets every source file.
    pub fn clear(&mut self)
        ensures
            final(self)@ == Seq::<(Seq<char>, Seq<char>)>::empty(),
    {
        let entries: Vec<(String, String)> = Vec::new();
        assert(entries@.map_values(|e: (String, String)| (e.0@, e.1@)) =~= Seq::<
            (Seq<char>, Seq<char>),
        >::empty());
        self.entries = entries;
    }
}

} // verus!

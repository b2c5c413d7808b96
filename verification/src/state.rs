//! Process-wide mutable state: the component-versions table and the restart
//! flag.  The surrounding program keeps one instance of each behind its own
//! lock; the library describes exactly how every operation changes them.

use vstd::prelude::*;

verus! {

/// The agent-restart flag.  It moves in one direction only: every operation
/// either leaves it alone or raises it, so once `requested` is observed true
/// it can never be observed false again.
pub struct RestartFlag {
    requested: bool,
}

impl RestartFlag {
    /// Whether a restart has been requested.
    pub closed spec fn spec_requested(&self) -> bool {
        self.requested
    }

    /// A fresh flag: no restart requested yet.
    pub fn new() -> (r: RestartFlag)
        ensures
            !r.spec_requested(),
    {
        RestartFlag { requested: false }
    }

    /// Requests a restart.  Monotonic: the flag can only rise.
    pub fn request(&mut self)
        ensures
            final(self).spec_requested(),
            old(self).spec_requested() ==> final(self).spec_requested(),
    {
        self.requested = true;
    }

    /// Reads the flag.
    pub fn is_requested(&self) -> (r: bool)
        ensures
            r == self.spec_requested(),
    {
        self.requested
    }
}

/// The component-versions table: a map from component name to version
/// string, kept as a list of pairs in insertion order with pairwise-distinct
/// keys.
pub struct VersionMap {
    entries: Vec<(String, String)>,
}

/// The table's mathematical content: name/version pairs as character
/// sequences, in table order.
pub closed spec fn spec_vm_entries(m: &VersionMap) -> Seq<(Seq<char>, Seq<char>)> {
    m.entries@.map_values(|e: (String, String)| (e.0@, e.1@))
}

/// Keys are pairwise distinct.
pub open spec fn spec_vm_wf(m: &VersionMap) -> bool {
    forall|i: int, j: int|
        0 <= i < j < spec_vm_entries(m).len() ==> spec_vm_entries(m)[i].0
            != spec_vm_entries(m)[j].0
}

/// Some entry carries the given name.
pub open spec fn spec_vm_has(m: &VersionMap, name: Seq<char>) -> bool {
    exists|i: int| 0 <= i < spec_vm_entries(m).len() && spec_vm_entries(m)[i].0 == name
}

/// Position of the first entry with the given name, or -1.
pub open spec fn spec_vm_index(m: &VersionMap, name: Seq<char>) -> int {
    spec_pair_index(spec_vm_entries(m), name)
}

/// Position of the first pair with the given key, or -1.
pub open spec fn spec_pair_index(es: Seq<(Seq<char>, Seq<char>)>, name: Seq<char>) -> int
    decreases es.len(),
{
    if es.len() == 0 {
        -1
    } else if es[0].0 == name {
        0
    } else if spec_pair_index(es.drop_first(), name) == -1 {
        -1
    } else {
        spec_pair_index(es.drop_first(), name) + 1
    }
}

pub proof fn lemma_pair_index(es: Seq<(Seq<char>, Seq<char>)>, name: Seq<char>)
    ensures
        spec_pair_index(es, name) == -1 <==> (forall|i: int|
            0 <= i < es.len() ==> es[i].0 != name),
        spec_pair_index(es, name) != -1 ==> {
            let k = spec_pair_index(es, name);
            &&& 0 <= k < es.len()
            &&& es[k].0 == name
            &&& forall|j: int| 0 <= j < k ==> es[j].0 != name
        },
    decreases es.len(),
{
    if es.len() == 0 {
    } else if es[0].0 == name {
    } else {
        lemma_pair_index(es.drop_first(), name);
        let rest = es.drop_first();
        if spec_pair_index(rest, name) == -1 {
            assert forall|i: int| 0 <= i < es.len() implies es[i].0 != name by {
                if i > 0 {
                    assert(es[i] == rest[i - 1]);
                }
            }
        } else {
            let k = spec_pair_index(rest, name);
            assert(es[k + 1] == rest[k]);
            assert forall|j: int| 0 <= j < k + 1 implies es[j].0 != name by {
                if j > 0 {
                    assert(es[j] == rest[j - 1]);
                }
            }
        }
    }
}

/// The version recorded for a name, if any.
pub open spec fn spec_vm_get(m: &VersionMap, name: Seq<char>) -> Option<Seq<char>> {
    if spec_vm_index(m, name) == -1 {
        None
    } else {
        Some(spec_vm_entries(m)[spec_vm_index(m, name)].1)
    }
}

impl VersionMap {
    /// An empty table.
    pub fn new() -> (r: VersionMap)
        ensures
            spec_vm_entries(&r) == Seq::<(Seq<char>, Seq<char>)>::empty(),
            spec_vm_wf(&r),
    {
        let r = VersionMap { entries: Vec::new() };
        proof {
            assert(spec_vm_entries(&r) =~= Seq::<(Seq<char>, Seq<char>)>::empty());
        }
        r
    }

    /// Number of entries.
    pub fn len(&self) -> (r: usize)
        ensures
            r == spec_vm_entries(self).len(),
    {
        self.entries.len()
    }

    /// Records `version` under `name`: replaces the existing entry in place,
    /// or appends a new one.  Returns whether the name was already present
    /// (the caller warns when it was not).
    pub fn insert(&mut self, name: &str, version: &str) -> (had: bool)
        requires
            spec_vm_wf(old(self)),
        ensures
            spec_vm_wf(final(self)),
            had == spec_vm_has(old(self), name@),
            spec_vm_get(final(self), name@) == Some(version@),
            had ==> spec_vm_entries(final(self)) == spec_vm_entries(old(self)).update(
                spec_vm_index(old(self), name@),
                (name@, version@),
            ),
            !had ==> spec_vm_entries(final(self)) == spec_vm_entries(old(self)).push(
                (name@, version@),
            ),
    {
        let ghost es = spec_vm_entries(old(self));
        let needle = name.to_owned();
        let n = self.entries.len();
        let mut i: usize = 0;
        while i < n
            invariant
                i <= n,
                n == self.entries@.len(),
                *self == *old(self),
                es == spec_vm_entries(self),
                needle@ == name@,
                forall|a: int, b: int| 0 <= a < b < es.len() ==> es[a].0 != es[b].0,
                forall|j: int| 0 <= j < i ==> es[j].0 != name@,
            decreases n - i,
        {
            if self.entries[i].0 == needle {
                proof {
                    lemma_pair_index(es, name@);
                    assert(es[i as int] == (self.entries@[i as int].0@, self.entries@[i as int].1@));
                    assert(spec_pair_index(es, name@) == i);
                    assert(spec_vm_has(old(self), name@));
                }
                let pair = (name.to_owned(), version.to_owned());
                self.entries.remove(i);
                self.entries.insert(i, pair);
                proof {
                    let es2 = es.update(i as int, (name@, version@));
                    assert(spec_vm_entries(self) =~= es2);
                    lemma_pair_index(es2, name@);
                    assert forall|a: int, b: int|
                        0 <= a < b < es2.len() implies es2[a].0 != es2[b].0 by {
                        assert(es[i as int].0 == name@);
                        assert(es2[a].0 == es[a].0);
                        assert(es2[b].0 == es[b].0);
                    }
                    assert(spec_pair_index(es2, name@) == i) by {
                        assert(es2[i as int].0 == name@);
                        assert(forall|j: int| 0 <= j < i ==> es2[j].0 != name@);
                    }
                }
                return true;
            }
            i = i + 1;
        }
        proof {
            lemma_pair_index(es, name@);
            assert(spec_pair_index(es, name@) == -1);
            assert(!spec_vm_has(old(self), name@));
        }
        let pair = (name.to_owned(), version.to_owned());
        self.entries.push(pair);
        proof {
            let es2 = es.push((name@, version@));
            assert(spec_vm_entries(self) =~= es2);
            assert(es2[es.len() as int].0 == name@);
            lemma_pair_index(es2, name@);
            assert forall|a: int, b: int| 0 <= a < b < es2.len() implies es2[a].0 != es2[b].0 by {
                if b < es2.len() - 1 {
                    assert(es2[a].0 == es[a].0);
                    assert(es2[b].0 == es[b].0);
                } else {
                    assert(es2[a].0 == es[a].0);
                    assert(es2[b].0 == name@);
                }
            }
            assert(spec_pair_index(es2, name@) != -1);
            let k = spec_pair_index(es2, name@);
            if k < es2.len() - 1 {
                assert(es2[k].0 == es[k].0);
                assert(es[k].0 == name@);
            }
        }
        false
    }

    /// The version recorded under `name`, or nothing.
    pub fn get(&self, name: &str) -> (r: Option<String>)
        ensures
            match r {
                Some(v) => spec_vm_get(self, name@) == Some(v@),
                None => spec_vm_get(self, name@) is None,
            },
    {
        let ghost es = spec_vm_entries(self);
        let needle = name.to_owned();
        let n = self.entries.len();
        let mut i: usize = 0;
        while i < n
            invariant
                i <= n,
                n == self.entries@.len(),
                es == spec_vm_entries(self),
                needle@ == name@,
                forall|j: int| 0 <= j < i ==> es[j].0 != name@,
            decreases n - i,
        {
            if self.entries[i].0 == needle {
                proof {
                    lemma_pair_index(es, name@);
                    assert(es[i as int] == (self.entries@[i as int].0@, self.entries@[i as int].1@));
                    assert(spec_pair_index(es, name@) == i);
                }
                return Some(self.entries[i].1.clone());
            }
            i = i + 1;
        }
        proof {
            lemma_pair_index(es, name@);
        }
        None
    }

    /// All names, in table order.
    pub fn keys(&self) -> (r: Vec<String>)
        ensures
            r@.map_values(|s: String| s@) =~= spec_vm_entries(self).map_values(
                |e: (Seq<char>, Seq<char>)| e.0,
            ),
    {
        let mut out: Vec<String> = Vec::new();
        let n = self.entries.len();
        let mut i: usize = 0;
        while i < n
            invariant
                i <= n,
                n == self.entries@.len(),
                out@.map_values(|s: String| s@) =~= spec_vm_entries(self).map_values(
                    |e: (Seq<char>, Seq<char>)| e.0,
                ).take(i as int),
            decreases n - i,
        {
            out.push(self.entries[i].0.clone());
            proof {
                let m = spec_vm_entries(self).map_values(|e: (Seq<char>, Seq<char>)| e.0);
                assert(spec_vm_entries(self)[i as int] == (
                    self.entries@[i as int].0@,
                    self.entries@[i as int].1@,
                ));
                assert(m[i as int] == self.entries@[i as int].0@);
                assert(m.take(i + 1) =~= m.take(i as int).push(m[i as int]));
                assert(out@.map_values(|s: String| s@) =~= m.take(i + 1));
            }
            i = i + 1;
        }
        proof {
            assert(spec_vm_entries(self).map_values(|e: (Seq<char>, Seq<char>)| e.0).take(n as int)
                =~= spec_vm_entries(self).map_values(|e: (Seq<char>, Seq<char>)| e.0));
        }
        out
    }

    /// All versions, in table order (aligned with `keys`).
    pub fn values(&self) -> (r: Vec<String>)
        ensures
            r@.map_values(|s: String| s@) =~= spec_vm_entries(self).map_values(
                |e: (Seq<char>, Seq<char>)| e.1,
            ),
    {
        let mut out: Vec<String> = Vec::new();
        let n = self.entries.len();
        let mut i: usize = 0;
        while i < n
            invariant
                i <= n,
                n == self.entries@.len(),
                out@.map_values(|s: String| s@) =~= spec_vm_entries(self).map_values(
                    |e: (Seq<char>, Seq<char>)| e.1,
                ).take(i as int),
            decreases n - i,
        {
            out.push(self.entries[i].1.clone());
            proof {
                let m = spec_vm_entries(self).map_values(|e: (Seq<char>, Seq<char>)| e.1);
                assert(spec_vm_entries(self)[i as int] == (
                    self.entries@[i as int].0@,
                    self.entries@[i as int].1@,
                ));
                assert(m[i as int] == self.entries@[i as int].1@);
                assert(m.take(i + 1) =~= m.take(i as int).push(m[i as int]));
                assert(out@.map_values(|s: String| s@) =~= m.take(i + 1));
            }
            i = i + 1;
        }
        proof {
            assert(spec_vm_entries(self).map_values(|e: (Seq<char>, Seq<char>)| e.1).take(n as int)
                =~= spec_vm_entries(self).map_values(|e: (Seq<char>, Seq<char>)| e.1));
        }
        out
    }
}

} // verus!

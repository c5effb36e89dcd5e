//! An explicit environment of shell variables.
//!
//! The engine threads the variable environment through the tokenizer and the
//! builtins as a value instead of reading process-wide state, so everything
//! that depends on it can be specified against a `Map` from names to values.

use vstd::prelude::*;

verus! {

/// One variable binding.
pub struct EnvEntry {
    pub name: String,
    pub value: String,
}

impl View for EnvEntry {
    type V = (Seq<char>, Seq<char>);

    open spec fn view(&self) -> (Seq<char>, Seq<char>) {
        (self.name@, self.value@)
    }
}

/// First-match lookup in a binding list.
pub open spec fn spec_lookup(s: Seq<(Seq<char>, Seq<char>)>, k: Seq<char>) -> Option<Seq<char>>
    decreases s.len(),
{
    if s.len() == 0 {
        None
    } else if s[0].0 == k {
        Some(s[0].1)
    } else {
        spec_lookup(s.drop_first(), k)
    }
}

/// The map described by a binding list (first match wins).
pub open spec fn map_of(s: Seq<(Seq<char>, Seq<char>)>) -> Map<Seq<char>, Seq<char>> {
    Map::new(
        |k: Seq<char>| spec_lookup(s, k) is Some,
        |k: Seq<char>|
            match spec_lookup(s, k) {
                Some(v) => v,
                None => Seq::empty(),
            },
    )
}

/// A set of shell variables, with distinct names.
pub struct Environment {
    entries: Vec<EnvEntry>,
}

impl View for Environment {
    type V = Map<Seq<char>, Seq<char>>;

    closed spec fn view(&self) -> Map<Seq<char>, Seq<char>> {
        map_of(self.list())
    }
}

impl Environment {
    /// The bindings in their stored order.
    pub closed spec fn list(&self) -> Seq<(Seq<char>, Seq<char>)> {
        self.entries@.map_values(|e: EnvEntry| e@)
    }

    /// Names are pairwise distinct.
    pub closed spec fn wf(&self) -> bool {
        forall|i: int, j: int|
            0 <= i < j < self.list().len() ==> self.list()[i].0 != self.list()[j].0
    }

    /// An empty environment.
    pub fn new() -> (r: Environment)
        ensures
            r.wf(),
            r@ == Map::<Seq<char>, Seq<char>>::empty(),
            r.list() == Seq::<(Seq<char>, Seq<char>)>::empty(),
    {
        let r = Environment { entries: Vec::new() };
        proof {
            assert(r.list() =~= Seq::<(Seq<char>, Seq<char>)>::empty());
            assert(r@ =~= Map::<Seq<char>, Seq<char>>::empty());
        }
        r
    }

    /// Number of bindings.
    pub fn len(&self) -> (r: usize)
        ensures
            r == self.list().len(),
    {
        self.entries.len()
    }

    /// The binding at a position, as name and value.
    pub fn entry_at(&self, i: usize) -> (r: (&String, &String))
        requires
            i < self.list().len(),
        ensures
            r.0@ == self.list()[i as int].0,
            r.1@ == self.list()[i as int].1,
    {
        (&self.entries[i].name, &self.entries[i].value)
    }

    /// Index of the binding for `name`, if any.
    fn position_of(&self, name: &String) -> (r: Option<usize>)
        ensures
            match r {
                Some(i) => i < self.list().len() && self.list()[i as int].0 == name@
                    && forall|j: int| 0 <= j < i ==> self.list()[j].0 != name@,
                None => forall|j: int| 0 <= j < self.list().len() ==> self.list()[j].0 != name@,
            },
    {
        let n: usize = self.entries.len();
        let mut i: usize = 0;
        while i < n
            invariant
                n == self.list().len(),
                i <= n,
                forall|j: int| 0 <= j < i ==> self.list()[j].0 != name@,
            decreases n - i,
        {
            if self.entries[i].name.eq(name) {
                return Some(i);
            }
            i = i + 1;
        }
        None
    }

    /// Value bound to `name`, if any.
    pub fn lookup(&self, name: &String) -> (r: Option<&String>)
        ensures
            match r {
                Some(v) => self@.contains_key(name@) && v@ == self@[name@],
                None => !self@.contains_key(name@),
            },
    {
        let pos = self.position_of(name);
        proof {
            lemma_lookup_is_first_match(self.list(), name@);
        }
        match pos {
            Some(i) => Some(&self.entries[i].value),
            None => None,
        }
    }

    /// Bind `name` to `value`, replacing any previous binding.
    pub fn set_var(&mut self, name: String, value: String)
        requires
            old(self).wf(),
        ensures
            final(self).wf(),
            final(self)@ == old(self)@.insert(name@, value@),
    {
        let ghost pre = self.list();
        let pos = self.position_of(&name);
        match pos {
            Some(i) => {
                let ghost nm = name@;
                let ghost vl = value@;
                self.entries.set(i, EnvEntry { name, value });
                proof {
                    assert(self.list() =~= pre.update(i as int, (nm, vl)));
                    assert forall|k: Seq<char>| #[trigger] spec_lookup(self.list(), k) == (
                        if k == nm {
                            Some(vl)
                        } else {
                            spec_lookup(pre, k)
                        }) by {
                        lemma_lookup_after_update(pre, i as int, (nm, vl), k);
                    }
                    assert(self@ =~= map_of(pre).insert(nm, vl));
                    assert(forall|j: int|
                        0 <= j < self.list().len() ==> #[trigger] self.list()[j].0 == pre[j].0);
                }
            },
            None => {
                let ghost nm = name@;
                let ghost vl = value@;
                self.entries.push(EnvEntry { name, value });
                proof {
                    assert(self.list() =~= pre.push((nm, vl)));
                    lemma_lookup_is_first_match(pre, nm);
                    assert forall|k: Seq<char>| #[trigger] spec_lookup(self.list(), k) == (
                        if k == nm {
                            Some(vl)
                        } else {
                            spec_lookup(pre, k)
                        }) by {
                        lemma_lookup_after_push(pre, (nm, vl), k);
                    }
                    assert(self@ =~= map_of(pre).insert(nm, vl));
                    assert(forall|j: int|
                        0 <= j < pre.len() ==> #[trigger] self.list()[j] == pre[j]);
                    assert(self.list()[pre.len() as int].0 == nm);
                }
            },
        }
    }

    /// Drop the binding for `name`, if present.
    pub fn unset_var(&mut self, name: &String)
        requires
            old(self).wf(),
        ensures
            final(self).wf(),
            final(self)@ == old(self)@.remove(name@),
    {
        let ghost pre = self.list();
        let pos = self.position_of(name);
        match pos {
            Some(i) => {
                self.entries.remove(i);
                proof {
                    assert(self.list() =~= pre.remove(i as int));
                    assert forall|k: Seq<char>| #[trigger] spec_lookup(self.list(), k) == (
                        if k == name@ {
                            None::<Seq<char>>
                        } else {
                            spec_lookup(pre, k)
                        }) by {
                        lemma_lookup_after_remove(pre, i as int, k);
                    }
                    assert(self@ =~= map_of(pre).remove(name@));
                    assert(forall|j: int|
                        0 <= j < i ==> #[trigger] self.list()[j] == pre[j]);
                    assert(forall|j: int|
                        i <= j < self.list().len() ==> #[trigger] self.list()[j] == pre[j + 1]);
                }
            },
            None => {
                proof {
                    lemma_lookup_is_first_match(pre, name@);
                    assert(self@ =~= map_of(pre).remove(name@));
                }
            },
        }
    }
}

/// `spec_lookup` finds no binding exactly when no name matches, and returns
/// the binding at the first matching position.
proof fn lemma_lookup_is_first_match(s: Seq<(Seq<char>, Seq<char>)>, k: Seq<char>)
    ensures
        (spec_lookup(s, k) is None) <==> (forall|j: int| 0 <= j < s.len() ==> s[j].0 != k),
        forall|i: int|
            (0 <= i < s.len() && s[i].0 == k && (forall|j: int| 0 <= j < i ==> s[j].0 != k))
                ==> spec_lookup(s, k) == Some(s[i].1),
    decreases s.len(),
{
    if s.len() > 0 {
        let rest = s.drop_first();
        lemma_lookup_is_first_match(rest, k);
        assert(forall|j: int| 0 <= j < rest.len() ==> rest[j] == #[trigger] s[j + 1]);
        if s[0].0 == k {
            assert(spec_lookup(s, k) == Some(s[0].1));
            assert forall|i: int|
                (0 <= i < s.len() && s[i].0 == k && (forall|j: int| 0 <= j < i ==> s[j].0 != k))
                    implies spec_lookup(s, k) == Some(s[i].1) by {
                if i > 0 {
                    assert(s[0].0 != k);
                }
            }
        } else {
            assert(spec_lookup(s, k) == spec_lookup(rest, k));
            if spec_lookup(s, k) is None {
                assert forall|j: int| 0 <= j < s.len() implies s[j].0 != k by {
                    if j > 0 {
                        assert(rest[j - 1] == s[j]);
                        assert(rest[j - 1].0 != k);
                    }
                }
            }
            if forall|j: int| 0 <= j < s.len() ==> s[j].0 != k {
                assert forall|j: int| 0 <= j < rest.len() implies rest[j].0 != k by {
                    assert(rest[j] == s[j + 1]);
                }
                assert(spec_lookup(rest, k) is None);
            }
            assert forall|i: int|
                (0 <= i < s.len() && s[i].0 == k && (forall|j: int| 0 <= j < i ==> s[j].0 != k))
                    implies spec_lookup(s, k) == Some(s[i].1) by {
                assert(i >= 1);
                assert(rest[i - 1] == s[i]);
                assert forall|j: int| 0 <= j < i - 1 implies rest[j].0 != k by {
                    assert(rest[j] == s[j + 1]);
                    assert(s[j + 1].0 != k);
                }
                assert(spec_lookup(rest, k) == Some(rest[i - 1].1));
            }
        }
    }
}

/// Updating the first binding of a name changes lookups of that name alone.
proof fn lemma_lookup_after_update(
    s: Seq<(Seq<char>, Seq<char>)>,
    i: int,
    e: (Seq<char>, Seq<char>),
    k: Seq<char>,
)
    requires
        0 <= i < s.len(),
        s[i].0 == e.0,
        forall|j: int| 0 <= j < i ==> s[j].0 != e.0,
    ensures
        spec_lookup(s.update(i, e), k) == (if k == e.0 {
            Some(e.1)
        } else {
            spec_lookup(s, k)
        }),
    decreases s.len(),
{
    let t = s.update(i, e);
    if i == 0 {
        assert(t[0] == e);
        if k != e.0 {
            assert(t.drop_first() =~= s.drop_first());
            assert(s[0].0 == e.0 && s[0].0 != k);
        }
    } else {
        assert(t[0] == s[0]);
        assert(s[0].0 != e.0);
        let rest = s.drop_first();
        assert(t.drop_first() =~= rest.update(i - 1, e));
        assert(rest[i - 1] == s[i]);
        assert forall|j: int| 0 <= j < i - 1 implies rest[j].0 != e.0 by {
            assert(rest[j] == s[j + 1]);
            assert(s[j + 1].0 != e.0);
        }
        lemma_lookup_after_update(rest, i - 1, e, k);
    }
}

/// Appending a binding changes lookups only where no earlier binding won.
proof fn lemma_lookup_after_push(
    s: Seq<(Seq<char>, Seq<char>)>,
    e: (Seq<char>, Seq<char>),
    k: Seq<char>,
)
    ensures
        spec_lookup(s.push(e), k) == (if k == e.0 && spec_lookup(s, k) is None {
            Some(e.1)
        } else {
            spec_lookup(s, k)
        }),
    decreases s.len(),
{
    let t = s.push(e);
    if s.len() == 0 {
        assert(t[0] == e);
        assert(t.drop_first() =~= Seq::<(Seq<char>, Seq<char>)>::empty());
    } else {
        assert(t[0] == s[0]);
        assert(t.drop_first() =~= s.drop_first().push(e));
        lemma_lookup_after_push(s.drop_first(), e, k);
    }
}

/// Removing the binding of a name that occurs nowhere else removes that name
/// from lookups and leaves the others unchanged.
proof fn lemma_lookup_after_remove(s: Seq<(Seq<char>, Seq<char>)>, i: int, k: Seq<char>)
    requires
        0 <= i < s.len(),
        forall|j: int| 0 <= j < i ==> s[j].0 != s[i].0,
        forall|j: int| i < j < s.len() ==> s[j].0 != s[i].0,
    ensures
        spec_lookup(s.remove(i), k) == (if k == s[i].0 {
            None::<Seq<char>>
        } else {
            spec_lookup(s, k)
        }),
    decreases s.len(),
{
    let t = s.remove(i);
    let rest = s.drop_first();
    if i == 0 {
        assert(t =~= rest);
        if k == s[0].0 {
            lemma_lookup_is_first_match(rest, k);
            assert forall|j: int| 0 <= j < rest.len() implies rest[j].0 != k by {
                assert(rest[j] == s[j + 1]);
                assert(s[j + 1].0 != s[0].0);
            }
            assert(spec_lookup(rest, k) is None);
        }
    } else {
        assert(t[0] == s[0]);
        assert(s[0].0 != s[i].0);
        assert(t.drop_first() =~= rest.remove(i - 1));
        assert(rest[i - 1] == s[i]);
        assert forall|j: int| 0 <= j < i - 1 implies #[trigger] rest[j].0 != rest[i - 1].0 by {
            assert(rest[j] == s[j + 1]);
            assert(s[j + 1].0 != s[i].0);
        }
        assert forall|j: int| i - 1 < j < rest.len() implies #[trigger] rest[j].0 != rest[i - 1].0 by {
            assert(rest[j] == s[j + 1]);
            assert(s[j + 1].0 != s[i].0);
        }
        lemma_lookup_after_remove(rest, i - 1, k);
    }
}

} // verus!

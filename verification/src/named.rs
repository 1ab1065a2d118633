//! Values keyed by name, with no name recorded twice.
use vstd::prelude::*;

verus! {

/// Values recorded under distinct names, in the order the names were first
/// recorded.
#[derive(Debug)]
pub struct NamedCounters<V> {
    items: Vec<(String, V)>,
}

pub open spec fn entry_views<V>(v: Seq<(String, V)>) -> Seq<(Seq<char>, V)> {
    v.map_values(|e: (String, V)| (e.0@, e.1))
}

/// No device name occurs twice.
pub open spec fn distinct_names<V>(s: Seq<(Seq<char>, V)>) -> bool {
    forall|i: int, j: int| 0 <= i < j < s.len() ==> s[i].0 != s[j].0
}

/// The counters recorded for `name` at or after position `i`.
pub open spec fn lookup_from<V>(s: Seq<(Seq<char>, V)>, name: Seq<char>, i: int) -> Option<V>
    decreases s.len() - i,
{
    if i < 0 || i >= s.len() {
        None
    } else if s[i].0 == name {
        Some(s[i].1)
    } else {
        lookup_from(s, name, i + 1)
    }
}

/// The counters recorded for `name`.
pub open spec fn lookup<V>(s: Seq<(Seq<char>, V)>, name: Seq<char>) -> Option<V> {
    lookup_from(s, name, 0)
}

proof fn lemma_lookup_from_skip<V>(s: Seq<(Seq<char>, V)>, name: Seq<char>, i: int)
    requires
        0 <= i <= s.len(),
        forall|k: int| 0 <= k < i ==> s[k].0 != name,
    ensures
        lookup(s, name) == lookup_from(s, name, i),
    decreases i,
{
    if i > 0 {
        lemma_lookup_from_skip(s, name, i - 1);
    }
}

/// Looking a name up after appending an entry.
proof fn lemma_lookup_push<V>(s: Seq<(Seq<char>, V)>, e: (Seq<char>, V), name: Seq<char>)
    ensures
        lookup(s.push(e), name) == (if lookup(s, name) is Some {
            lookup(s, name)
        } else if e.0 == name {
            Some(e.1)
        } else {
            None
        }),
{
    lemma_lookup_push_from(s, e, name, 0);
}

proof fn lemma_lookup_push_from<V>(s: Seq<(Seq<char>, V)>, e: (Seq<char>, V), name: Seq<char>, i: int)
    requires
        0 <= i <= s.len(),
    ensures
        lookup_from(s.push(e), name, i) == (if lookup_from(s, name, i) is Some {
            lookup_from(s, name, i)
        } else if e.0 == name {
            Some(e.1)
        } else {
            None
        }),
    decreases s.len() - i,
{
    if i < s.len() {
        assert(s.push(e)[i] == s[i]);
        lemma_lookup_push_from(s, e, name, i + 1);
    } else {
        assert(s.push(e)[i] == e);
        assert(lookup_from(s.push(e), name, i + 1).is_none());
        assert(lookup_from(s, name, i).is_none());
    }
}

/// A name that is recorded is recorded at some position.
proof fn lemma_lookup_some<V>(s: Seq<(Seq<char>, V)>, name: Seq<char>, i: int)
    requires
        0 <= i <= s.len(),
        lookup_from(s, name, i) is Some,
    ensures
        exists|k: int| i <= k < s.len() && s[k].0 == name && s[k].1 == lookup_from(s, name, i).unwrap(),
    decreases s.len() - i,
{
    if s[i].0 != name {
        lemma_lookup_some(s, name, i + 1);
    }
}

/// A recorded entry is found by its name when names are distinct.
proof fn lemma_lookup_at<V>(s: Seq<(Seq<char>, V)>, k: int)
    requires
        0 <= k < s.len(),
        distinct_names(s),
    ensures
        lookup(s, s[k].0) == Some(s[k].1),
{
    lemma_lookup_from_skip(s, s[k].0, k);
}

impl<V> NamedCounters<V> {
    /// The recorded names and values, in the order the names were first
    /// recorded.
    pub closed spec fn entries(&self) -> Seq<(Seq<char>, V)> {
        entry_views(self.items@)
    }

    #[verifier::type_invariant]
    spec fn names_distinct(&self) -> bool {
        distinct_names(self.entries())
    }
}

impl<V: Copy> NamedCounters<V> {

    /// A snapshot with no devices.
    pub fn new() -> (s: Self)
        ensures
            s.entries() == Seq::<(Seq<char>, V)>::empty(),
    {
        let s = NamedCounters { items: Vec::new() };
        assert(s.entries() =~= Seq::<(Seq<char>, V)>::empty());
        s
    }

    pub fn len(&self) -> (n: usize)
        ensures
            n == self.entries().len(),
    {
        self.items.len()
    }

    fn find(&self, name: &String) -> (r: Option<usize>)
        ensures
            match r {
                Some(j) => j < self.entries().len() && self.entries()[j as int].0 == name@
                    && lookup(self.entries(), name@) == Some(self.entries()[j as int].1),
                None => lookup(self.entries(), name@) is None,
            },
    {
        let ghost s = self.entries();
        let mut j: usize = 0;
        while j < self.items.len()
            invariant
                j <= self.items@.len(),
                s == self.entries(),
                s.len() == self.items@.len(),
                forall|k: int| 0 <= k < j ==> s[k].0 != name@,
            decreases self.items@.len() - j,
        {
            assert(s[j as int] == (self.items@[j as int].0@, self.items@[j as int].1));
            if self.items[j].0 == *name {
                proof {
                    lemma_lookup_from_skip(s, name@, j as int);
                }
                return Some(j);
            }
            j = j + 1;
        }
        proof {
            lemma_lookup_from_skip(s, name@, j as int);
        }
        None
    }

    /// The name recorded at position `i`.
    pub fn name_at(&self, i: usize) -> (n: &String)
        requires
            i < self.entries().len(),
        ensures
            n@ == self.entries()[i as int].0,
    {
        &self.items[i].0
    }

    /// The value recorded at position `i`.
    pub fn value_at(&self, i: usize) -> (v: V)
        requires
            i < self.entries().len(),
        ensures
            v == self.entries()[i as int].1,
    {
        self.items[i].1
    }

    /// The value recorded for `name`, if any.
    pub fn lookup_name(&self, name: &String) -> (r: Option<V>)
        ensures
            r == lookup(self.entries(), name@),
    {
        match self.find(name) {
            Some(j) => {
                assert(self.entries()[j as int] == (self.items@[j as int].0@, self.items@[j as int].1));
                Some(self.items[j].1)
            },
            None => None,
        }
    }

    /// The value recorded for `name`, if any.
    pub fn get(&self, name: &str) -> (r: Option<V>)
        ensures
            r == lookup(self.entries(), name@),
    {
        let key = name.to_owned();
        self.lookup_name(&key)
    }

    /// Records `counters` under `name`, replacing and returning what was
    /// recorded there before.
    pub fn insert(&mut self, name: String, counters: V) -> (previous: Option<
        V,
    >)
        ensures
            previous == lookup(old(self).entries(), name@),
            previous is None ==> final(self).entries() == old(self).entries().push(
                (name@, counters),
            ),
            previous is Some ==> final(self).entries() == old(self).entries().map_values(
                |e: (Seq<char>, V)|
                    if e.0 == name@ {
                        (e.0, counters)
                    } else {
                        e
                    },
            ),
            forall|n: Seq<char>|
                lookup(final(self).entries(), n) == if n == name@ {
                    Some(counters)
                } else {
                    lookup(old(self).entries(), n)
                },
            final(self).entries().len() == old(self).entries().len() + if previous is Some {
                0int
            } else {
                1int
            },
    {
        proof {
            use_type_invariant(&*self);
        }
        let ghost s = self.entries();
        let ghost key = name@;
        match self.find(&name) {
            Some(j) => {
                let old_counters = self.items[j].1;
                assert(s[j as int] == (self.items@[j as int].0@, self.items@[j as int].1));
                let mut items: Vec<(String, V)> = Vec::new();
                std::mem::swap(&mut items, &mut self.items);
                items.set(j, (name, counters));
                let ghost t = entry_views(items@);
                assert(t =~= s.update(j as int, (s[j as int].0, counters)));
                assert(t =~= s.map_values(
                    |e: (Seq<char>, V)|
                        if e.0 == key {
                            (e.0, counters)
                        } else {
                            e
                        },
                ));
                assert forall|n: Seq<char>|
                    lookup(t, n) == if n == s[j as int].0 {
                        Some(counters)
                    } else {
                        lookup(s, n)
                    } by {
                    lemma_lookup_update(s, j as int, counters, n);
                }
                assert(distinct_names(t));
                self.items = items;
                Some(old_counters)
            },
            None => {
                let mut items: Vec<(String, V)> = Vec::new();
                std::mem::swap(&mut items, &mut self.items);
                items.push((name, counters));
                let ghost t = entry_views(items@);
                assert(t =~= s.push((key, counters)));
                assert forall|n: Seq<char>|
                    lookup(t, n) == if n == key {
                        Some(counters)
                    } else {
                        lookup(s, n)
                    } by {
                    lemma_lookup_push(s, (key, counters), n);
                }
                assert forall|i: int, k: int| 0 <= i < k < t.len() implies t[i].0 != t[k].0 by {
                    if k == s.len() {
                        if t[i].0 == key {
                            lemma_lookup_at(s, i);
                        }
                    }
                }
                self.items = items;
                None
            },
        }
    }
}

/// Looking a name up after replacing the counters at one position.
proof fn lemma_lookup_update<V>(s: Seq<(Seq<char>, V)>, j: int, c: V, n: Seq<char>)
    requires
        0 <= j < s.len(),
        distinct_names(s),
    ensures
        lookup(s.update(j, (s[j].0, c)), n) == if n == s[j].0 {
            Some(c)
        } else {
            lookup(s, n)
        },
{
    let t = s.update(j, (s[j].0, c));
    assert(distinct_names(t));
    if n == s[j].0 {
        lemma_lookup_at(t, j);
    } else {
        lemma_lookup_update_other(s, j, c, n, 0);
    }
}

proof fn lemma_lookup_update_other<V>(
    s: Seq<(Seq<char>, V)>,
    j: int,
    c: V,
    n: Seq<char>,
    i: int,
)
    requires
        0 <= j < s.len(),
        0 <= i <= s.len(),
        n != s[j].0,
    ensures
        lookup_from(s.update(j, (s[j].0, c)), n, i) == lookup_from(s, n, i),
    decreases s.len() - i,
{
    if i < s.len() {
        lemma_lookup_update_other(s, j, c, n, i + 1);
    }
}

impl<V: Copy> Clone for NamedCounters<V> {
    fn clone(&self) -> (c: Self)
        ensures
            c.entries() == self.entries(),
    {
        proof {
            use_type_invariant(self);
        }
        let mut items: Vec<(String, V)> = Vec::new();
        let mut i: usize = 0;
        while i < self.items.len()
            invariant
                i <= self.items@.len(),
                entry_views(items@) == self.entries().take(i as int),
                distinct_names(self.entries()),
            decreases self.items@.len() - i,
        {
            let ghost before = entry_views(items@);
            let name = self.items[i].0.clone();
            items.push((name, self.items[i].1));
            assert(entry_views(items@) =~= before.push(self.entries()[i as int]));
            assert(self.entries().take(i + 1) =~= self.entries().take(i as int).push(
                self.entries()[i as int],
            ));
            i = i + 1;
        }
        assert(self.entries().take(i as int) =~= self.entries());
        NamedCounters { items }
    }
}

} // verus!

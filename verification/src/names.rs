//! Collections keyed by name: a map from names to values, and strictly
//! ordered lists of names.
use crate::text;
use vstd::prelude::*;

verus! {

/// What a row of entries maps, later entries first.
pub open spec fn map_of<V>(entries: Seq<(String, V)>) -> Map<Seq<char>, V>
    decreases entries.len(),
{
    if entries.len() == 0 {
        Map::empty()
    } else {
        map_of(entries.drop_last()).insert(entries.last().0@, entries.last().1)
    }
}

/// No name stands twice.
pub open spec fn distinct<V>(entries: Seq<(String, V)>) -> bool {
    forall|i: int, j: int|
        0 <= i < j < entries.len() ==> #[trigger] entries[i].0@ != #[trigger] entries[j].0@
}

/// A name is mapped exactly where an entry has it, and to that entry's value.
pub proof fn map_of_entries<V>(entries: Seq<(String, V)>)
    requires
        distinct(entries),
    ensures
        forall|i: int|
            0 <= i < entries.len() ==> map_of(entries).contains_key(#[trigger] entries[i].0@)
                && map_of(entries)[entries[i].0@] == entries[i].1,
        forall|k: Seq<char>| #[trigger]
            map_of(entries).contains_key(k) ==> exists|i: int|
                0 <= i < entries.len() && #[trigger] entries[i].0@ == k,
        map_of(entries).dom().finite(),
        map_of(entries).dom().len() == entries.len(),
    decreases entries.len(),
{
    if entries.len() > 0 {
        let rest = entries.drop_last();
        assert(distinct(rest)) by {
            assert forall|i: int, j: int| 0 <= i < j < rest.len() implies #[trigger] rest[i].0@
                != #[trigger] rest[j].0@ by {
                assert(entries[i].0@ != entries[j].0@);
            }
        }
        map_of_entries(rest);
        let last = entries.last().0@;
        assert(!map_of(rest).contains_key(last)) by {
            if map_of(rest).contains_key(last) {
                let i = choose|i: int| 0 <= i < rest.len() && #[trigger] rest[i].0@ == last;
                assert(entries[i].0@ != entries[entries.len() - 1].0@);
            }
        }
        assert forall|i: int| 0 <= i < entries.len() implies map_of(entries).contains_key(
            #[trigger] entries[i].0@,
        ) && map_of(entries)[entries[i].0@] == entries[i].1 by {
            if i < rest.len() {
                assert(rest[i].0@ == entries[i].0@);
            }
        }
        assert forall|k: Seq<char>| #[trigger] map_of(entries).contains_key(k) implies exists|
            i: int,
        |
            0 <= i < entries.len() && #[trigger] entries[i].0@ == k by {
            if k == last {
                assert(entries[entries.len() - 1].0@ == k);
            } else {
                assert(map_of(rest).contains_key(k));
                let i = choose|i: int| 0 <= i < rest.len() && #[trigger] rest[i].0@ == k;
                assert(entries[i].0@ == k);
            }
        }
    }
}

/// A map from names to values.
pub struct NameMap<V> {
    entries: Vec<(String, V)>,
}

impl<V> View for NameMap<V> {
    type V = Map<Seq<char>, V>;

    closed spec fn view(&self) -> Map<Seq<char>, V> {
        map_of(self.entries@)
    }
}

impl<V> NameMap<V> {
    /// No name has two entries.
    pub closed spec fn wf(&self) -> bool {
        distinct(self.entries@)
    }

    /// The names in the order in which the entries stand.
    pub closed spec fn order(&self) -> Seq<Seq<char>> {
        self.entries@.map_values(|e: (String, V)| e.0@)
    }

    /// A map with no entries.
    pub fn new() -> (m: Self)
        ensures
            m.wf(),
            m@ == Map::<Seq<char>, V>::empty(),
    {
        NameMap { entries: Vec::new() }
    }

    fn position(&self, name: &str) -> (r: Option<usize>)
        requires
            self.wf(),
        ensures
            match r {
                Some(i) => i < self.entries@.len() && self.entries@[i as int].0@ == name@
                    && self@.contains_key(name@),
                None => !self@.contains_key(name@) && forall|j: int|
                    0 <= j < self.entries@.len() ==> #[trigger] self.entries@[j].0@ != name@,
            },
    {
        proof {
            map_of_entries(self.entries@);
        }
        let mut i: usize = 0;
        while i < self.entries.len()
            invariant
                i <= self.entries@.len(),
                forall|j: int| 0 <= j < i ==> #[trigger] self.entries@[j].0@ != name@,
                forall|j: int|
                    0 <= j < self.entries@.len() ==> self@.contains_key(
                        #[trigger] self.entries@[j].0@,
                    ),
            decreases self.entries@.len() - i,
        {
            if text::same(self.entries[i].0.as_str(), name) {
                return Some(i);
            }
            i += 1;
        }
        None
    }

    /// The value of a name.
    pub fn get(&self, name: &str) -> (r: Option<&V>)
        requires
            self.wf(),
        ensures
            match r {
                Some(v) => self@.contains_key(name@) && *v == self@[name@],
                None => !self@.contains_key(name@),
            },
    {
        proof {
            map_of_entries(self.entries@);
        }
        match self.position(name) {
            Some(i) => Some(&self.entries[i].1),
            None => None,
        }
    }

    /// Whether a name has a value.
    pub fn contains(&self, name: &str) -> (r: bool)
        requires
            self.wf(),
        ensures
            r == self@.contains_key(name@),
    {
        self.position(name).is_some()
    }

    /// Gives a name a value, in place of the one it had.
    pub fn insert(&mut self, name: &str, value: V)
        requires
            old(self).wf(),
        ensures
            final(self).wf(),
            final(self)@ == old(self)@.insert(name@, value),
    {
        let ghost before = self.entries@;
        proof {
            map_of_entries(self.entries@);
        }
        match self.position(name) {
            Some(i) => {
                self.entries.set(i, (name.to_owned(), value));
                proof {
                    let after = self.entries@;
                    assert(after[i as int].0@ == name@);
                    assert forall|a: int, b: int| 0 <= a < b < after.len() implies #[trigger] after[a].0@
                        != #[trigger] after[b].0@ by {
                        assert(after[a].0@ == before[a].0@);
                        assert(after[b].0@ == before[b].0@);
                    }
                    map_of_entries(after);
                    let m = map_of(before).insert(name@, value);
                    assert forall|k: Seq<char>| map_of(after).contains_key(k)
                        == #[trigger] m.contains_key(k) by {
                        if map_of(after).contains_key(k) {
                            let a = choose|a: int| 0 <= a < after.len() && #[trigger] after[a].0@ == k;
                            assert(before[a].0@ == after[a].0@);
                        }
                        if map_of(before).contains_key(k) {
                            let a = choose|a: int|
                                0 <= a < before.len() && #[trigger] before[a].0@ == k;
                            assert(before[a].0@ == after[a].0@);
                        }
                        if k == name@ {
                            assert(after[i as int].0@ == k);
                        }
                    }
                    assert forall|k: Seq<char>| #[trigger]
                        m.contains_key(k) implies map_of(after)[k] == m[k] by {
                        let a = choose|a: int| 0 <= a < after.len() && #[trigger] after[a].0@ == k;
                        assert(map_of(after).contains_key(k));
                        assert(after[a].0@ == before[a].0@);
                    }
                    assert(map_of(after) =~= m);
                }
            },
            None => {
                self.entries.push((name.to_owned(), value));
                proof {
                    let after = self.entries@;
                    assert(after.drop_last() == before);
                    assert forall|a: int, b: int| 0 <= a < b < after.len() implies #[trigger] after[a].0@
                        != #[trigger] after[b].0@ by {
                        assert(after[a].0@ == before[a].0@);
                        if b < before.len() {
                            assert(after[b].0@ == before[b].0@);
                        }
                    }
                }
            },
        }
    }

    /// Takes a name out.
    pub fn remove(&mut self, name: &str) -> (r: Option<V>)
        requires
            old(self).wf(),
        ensures
            final(self).wf(),
            final(self)@ == old(self)@.remove(name@),
            match r {
                Some(v) => old(self)@.contains_key(name@) && v == old(self)@[name@],
                None => !old(self)@.contains_key(name@),
            },
    {
        let ghost before = self.entries@;
        proof {
            map_of_entries(self.entries@);
        }
        match self.position(name) {
            Some(i) => {
                let entry = self.entries.remove(i);
                proof {
                    let after = self.entries@;
                    let at = i as int;
                    assert(after == before.remove(at));
                    assert forall|a: int, b: int| 0 <= a < b < after.len() implies #[trigger] after[a].0@
                        != #[trigger] after[b].0@ by {
                        let a0 = if a < at { a } else { a + 1 };
                        let b0 = if b < at { b } else { b + 1 };
                        assert(before[a0].0@ != before[b0].0@);
                    }
                    map_of_entries(after);
                    let m = map_of(before).remove(name@);
                    assert forall|k: Seq<char>| map_of(after).contains_key(k)
                        == #[trigger] m.contains_key(k) by {
                        if map_of(after).contains_key(k) {
                            let a = choose|a: int| 0 <= a < after.len() && #[trigger] after[a].0@ == k;
                            let a0 = if a < at { a } else { a + 1 };
                            assert(before[a0].0@ == k);
                            assert(before[at].0@ == name@);
                        }
                        if m.contains_key(k) {
                            let a0 = choose|a: int|
                                0 <= a < before.len() && #[trigger] before[a].0@ == k;
                            let a = if a0 < at { a0 } else { a0 - 1 };
                            assert(a0 != at);
                            assert(after[a].0@ == k);
                        }
                    }
                    assert forall|k: Seq<char>| #[trigger]
                        m.contains_key(k) implies map_of(after)[k] == m[k] by {
                        let a0 = choose|a: int|
                            0 <= a < before.len() && #[trigger] before[a].0@ == k;
                        let a = if a0 < at { a0 } else { a0 - 1 };
                        assert(a0 != at);
                        assert(after[a].0@ == k);
                    }
                    assert(map_of(after) =~= m);
                }
                Some(entry.1)
            },
            None => {
                assert(map_of(before).remove(name@) =~= map_of(before));
                None
            },
        }
    }

    /// The number of names.
    pub fn len(&self) -> (n: usize)
        requires
            self.wf(),
        ensures
            n == self.order().len(),
            n == self@.dom().len(),
    {
        proof {
            map_of_entries(self.entries@);
        }
        self.entries.len()
    }

    /// The name at a place of the order.
    pub fn name_at(&self, i: usize) -> (r: &str)
        requires
            self.wf(),
            i < self.order().len(),
        ensures
            r@ == self.order()[i as int],
    {
        self.entries[i].0.as_str()
    }

    /// The value at a place of the order.
    pub fn value_at(&self, i: usize) -> (r: &V)
        requires
            self.wf(),
            i < self.order().len(),
        ensures
            *r == self@[self.order()[i as int]],
    {
        proof {
            map_of_entries(self.entries@);
            assert(self.order()[i as int] == self.entries@[i as int].0@);
        }
        &self.entries[i].1
    }

    /// The order names each mapped name exactly once.
    pub proof fn order_lists_the_names(&self)
        requires
            self.wf(),
        ensures
            self.order().no_duplicates(),
            self.order().to_set() == self@.dom(),
            self@.dom().finite(),
    {
        map_of_entries(self.entries@);
        let order = self.order();
        assert forall|i: int, j: int| 0 <= i < j < order.len() implies order[i] != order[j] by {
            assert(self.entries@[i].0@ != self.entries@[j].0@);
        }
        assert forall|k: Seq<char>| order.to_set().contains(k) == #[trigger] self@.dom().contains(
            k,
        ) by {
            if order.contains(k) {
                let i = choose|i: int| 0 <= i < order.len() && order[i] == k;
                assert(self.entries@[i].0@ == k);
            }
            if self@.contains_key(k) {
                let i = choose|i: int|
                    0 <= i < self.entries@.len() && #[trigger] self.entries@[i].0@ == k;
                assert(order[i] == k);
            }
        }
        assert(order.to_set() =~= self@.dom());
    }
}

/// No name comes before itself.
pub proof fn before_irreflexive(a: Seq<char>)
    ensures
        !text::before(a, a),
    decreases a.len(),
{
    if a.len() > 0 {
        before_irreflexive(a.subrange(1, a.len() as int));
    }
}

/// The order of names is transitive.
pub proof fn before_transitive(a: Seq<char>, b: Seq<char>, c: Seq<char>)
    requires
        text::before(a, b),
        text::before(b, c),
    ensures
        text::before(a, c),
    decreases a.len(),
{
    if a.len() > 0 && a[0] == b[0] && b[0] == c[0] {
        before_transitive(
            a.subrange(1, a.len() as int),
            b.subrange(1, b.len() as int),
            c.subrange(1, c.len() as int),
        );
    }
}

/// Of two different names one comes before the other.
pub proof fn before_total(a: Seq<char>, b: Seq<char>)
    ensures
        a == b || text::before(a, b) || text::before(b, a),
    decreases a.len(),
{
    if a.len() > 0 && b.len() > 0 && a[0] == b[0] {
        let a1 = a.subrange(1, a.len() as int);
        let b1 = b.subrange(1, b.len() as int);
        before_total(a1, b1);
        if a1 == b1 {
            assert(a =~= seq![a[0]] + a1);
            assert(b =~= seq![b[0]] + b1);
        }
    } else if a.len() == 0 && b.len() == 0 {
        assert(a =~= b);
    }
}

/// Names in strictly ascending order.
pub open spec fn ascending(names: Seq<Seq<char>>) -> bool {
    forall|i: int, j: int|
        0 <= i < j < names.len() ==> text::before(#[trigger] names[i], #[trigger] names[j])
}

/// Adds a name to an ascending list, unless it is there.
pub fn add_name(list: &mut Vec<String>, name: &str)
    requires
        ascending(text::texts(old(list)@)),
    ensures
        ascending(text::texts(final(list)@)),
        text::texts(final(list)@).to_set() == text::texts(old(list)@).to_set().insert(name@),
{
    let ghost before = text::texts(list@);
    let mut i: usize = 0;
    while i < list.len() && text::precedes(list[i].as_str(), name)
        invariant
            i <= list@.len(),
            before == text::texts(list@),
            forall|j: int| 0 <= j < i ==> text::before(#[trigger] before[j], name@),
        decreases list@.len() - i,
    {
        i += 1;
    }
    if i < list.len() && text::same(list[i].as_str(), name) {
        assert(before[i as int] == name@);
        assert(before.to_set().contains(name@));
        assert(before.to_set().insert(name@) =~= before.to_set());
        return ;
    }
    list.insert(i, name.to_owned());
    proof {
        let after = text::texts(list@);
        let at = i as int;
        assert(after =~= before.insert(at, name@));
        assert forall|j: int| at <= j < before.len() implies text::before(
            name@,
            #[trigger] before[j],
        ) by {
            before_total(before[at], name@);
            if j > at {
                before_transitive(name@, before[at], before[j]);
            }
        }
        assert forall|a: int, b: int| 0 <= a < b < after.len() implies text::before(
            #[trigger] after[a],
            #[trigger] after[b],
        ) by {
            let a0 = if a < at { a } else { a - 1 };
            let b0 = if b < at { b } else { b - 1 };
            if a == at {
                assert(after[b] == before[b0]);
            } else if b == at {
                assert(after[a] == before[a0]);
            } else {
                assert(after[a] == before[a0]);
                assert(after[b] == before[b0]);
            }
        }
        assert forall|k: Seq<char>| after.to_set().contains(k) == before.to_set().insert(
            name@,
        ).contains(k) by {
            if after.contains(k) {
                let a = choose|a: int| 0 <= a < after.len() && after[a] == k;
                if a != at {
                    assert(before[if a < at { a } else { a - 1 }] == k);
                }
            }
            if before.contains(k) {
                let a = choose|a: int| 0 <= a < before.len() && before[a] == k;
                assert(after[if a < at { a } else { a + 1 }] == k);
            }
            assert(after[at] == name@);
        }
        assert(after.to_set() =~= before.to_set().insert(name@));
    }
}

/// An ascending list names nothing twice.
pub proof fn ascending_is_distinct(names: Seq<Seq<char>>)
    requires
        ascending(names),
    ensures
        names.no_duplicates(),
{
    assert forall|i: int, j: int| 0 <= i < j < names.len() implies names[i] != names[j] by {
        before_irreflexive(names[i]);
    }
}

} // verus!

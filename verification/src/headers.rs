//! Header maps: names to values, each name at most once.

use crate::text::str_eq;
use vstd::prelude::*;
use vstd::set_lib::lemma_subset_equality;
use vstd::std_specs::cmp::PartialEqSpecImpl;
use vstd::string::StringExecFns;

verus! {

/// No name occurs in two entries.
pub open spec fn distinct_names(entries: Seq<(Seq<char>, Seq<char>)>) -> bool {
    forall|i: int, j: int|
        0 <= i < j < entries.len() ==> (#[trigger] entries[i]).0 != (#[trigger] entries[j]).0
}

/// Whether some entry has the name `name`.
pub open spec fn has_name(entries: Seq<(Seq<char>, Seq<char>)>, name: Seq<char>) -> bool {
    exists|i: int| 0 <= i < entries.len() && (#[trigger] entries[i]).0 == name
}

/// The position of an entry named `name`, where there is one.
pub open spec fn position_of(entries: Seq<(Seq<char>, Seq<char>)>, name: Seq<char>) -> int {
    choose|i: int| 0 <= i < entries.len() && (#[trigger] entries[i]).0 == name
}

/// The map that a sequence of entries stands for; of two entries with one
/// name the later one counts.
pub open spec fn entries_map(entries: Seq<(Seq<char>, Seq<char>)>) -> Map<Seq<char>, Seq<char>>
    decreases entries.len(),
{
    if entries.len() == 0 {
        Map::empty()
    } else {
        entries_map(entries.drop_last()).insert(entries.last().0, entries.last().1)
    }
}

/// The entries after `name` is set to `value`: the entry of that name gets
/// the new value and keeps its place; a new name goes to the end.
pub open spec fn entries_insert(
    entries: Seq<(Seq<char>, Seq<char>)>,
    name: Seq<char>,
    value: Seq<char>,
) -> Seq<(Seq<char>, Seq<char>)> {
    if has_name(entries, name) {
        entries.update(position_of(entries, name), (name, value))
    } else {
        entries.push((name, value))
    }
}

/// One entry as a line: the name, a colon, the value and a line break.
pub open spec fn header_line(entry: (Seq<char>, Seq<char>)) -> Seq<char> {
    entry.0 + ":"@ + entry.1 + "\r\n"@
}

/// The lines of all entries, in the order of the entries.
pub open spec fn header_lines(entries: Seq<(Seq<char>, Seq<char>)>) -> Seq<char>
    decreases entries.len(),
{
    if entries.len() == 0 {
        Seq::empty()
    } else {
        header_lines(entries.drop_last()) + header_line(entries.last())
    }
}

/// With distinct names, the map holds exactly the entries: each entry's
/// name maps to its value, every key is the name of some entry, and there are
/// as many keys as entries.
pub proof fn lemma_entries_map(entries: Seq<(Seq<char>, Seq<char>)>)
    requires
        distinct_names(entries),
    ensures
        entries_map(entries).dom().finite(),
        entries_map(entries).dom().len() == entries.len(),
        forall|i: int|
            0 <= i < entries.len() ==> entries_map(entries).contains_key(
                (#[trigger] entries[i]).0,
            ) && entries_map(entries)[entries[i].0] == entries[i].1,
        forall|name: Seq<char>| #[trigger]
            entries_map(entries).contains_key(name) <==> has_name(entries, name),
    decreases entries.len(),
{
    if entries.len() > 0 {
        let front = entries.drop_last();
        let last = entries.last();
        lemma_entries_map(front);
        assert(!has_name(front, last.0)) by {
            if has_name(front, last.0) {
                assert(entries[position_of(front, last.0)].0 == last.0);
            }
        }
        assert forall|name: Seq<char>| #[trigger]
            entries_map(entries).contains_key(name) <==> has_name(entries, name) by {
            if has_name(entries, name) && name != last.0 {
                assert(front[position_of(entries, name)].0 == name);
            }
            if has_name(front, name) {
                assert(entries[position_of(front, name)].0 == name);
            }
        }
        assert forall|i: int| 0 <= i < entries.len() implies entries_map(entries).contains_key(
            (#[trigger] entries[i]).0,
        ) && entries_map(entries)[entries[i].0] == entries[i].1 by {
            if i < front.len() {
                assert(front[i] == entries[i]);
            }
        }
    }
}

/// Setting a name keeps the names distinct, and on the map it is an insert.
pub proof fn lemma_entries_insert(
    entries: Seq<(Seq<char>, Seq<char>)>,
    name: Seq<char>,
    value: Seq<char>,
)
    requires
        distinct_names(entries),
    ensures
        distinct_names(entries_insert(entries, name, value)),
        entries_map(entries_insert(entries, name, value)) == entries_map(entries).insert(
            name,
            value,
        ),
{
    let after = entries_insert(entries, name, value);
    if has_name(entries, name) {
        // One value changes; every entry keeps its name and its place.
        assert forall|i: int| 0 <= i < after.len() implies (#[trigger] after[i]).0
            == entries[i].0 by {}
        lemma_entries_map(entries);
        lemma_entries_map(after);
        assert forall|key: Seq<char>| #[trigger]
            entries_map(after).contains_key(key) <==> entries_map(entries).contains_key(key) by {
            if has_name(after, key) {
                assert(entries[position_of(after, key)].0 == key);
            }
            if has_name(entries, key) {
                assert(after[position_of(entries, key)].0 == key);
            }
        }
        assert forall|key: Seq<char>| #[trigger]
            entries_map(after).contains_key(key) implies entries_map(after)[key]
            == entries_map(entries).insert(name, value)[key] by {
            let i = position_of(after, key);
            assert(after[i].0 == key);
            if key != name {
                assert(entries[i] == after[i]);
            }
        }
        assert(entries_map(after) =~= entries_map(entries).insert(name, value));
    } else {
        assert(after.drop_last() =~= entries);
        assert forall|i: int| 0 <= i < entries.len() implies (#[trigger] after[i])
            == entries[i] by {}
    }
}

/// The texts of stored entries.
spec fn texts(stored: Seq<(&str, &str)>) -> Seq<(Seq<char>, Seq<char>)> {
    Seq::new(stored.len(), |i: int| (stored[i].0@, stored[i].1@))
}

/// A map from header names to header values.
///
/// A name occurs at most once. The entries keep the order in which their
/// names were first inserted; two maps are equal when they hold the same
/// values under the same names, in whatever order.
#[derive(Debug)]
pub struct Headers<'a> {
    entries: Vec<(&'a str, &'a str)>,
}

impl<'a> View for Headers<'a> {
    type V = Map<Seq<char>, Seq<char>>;

    open spec fn view(&self) -> Map<Seq<char>, Seq<char>> {
        entries_map(self.entries())
    }
}

impl<'a> Headers<'a> {
    /// The entries as texts, in their stored order.
    pub closed spec fn entries(&self) -> Seq<(Seq<char>, Seq<char>)> {
        texts(self.entries@)
    }

    /// No name occurs twice. This holds of every header map that a program
    /// can hold.
    #[verifier::type_invariant]
    pub open spec fn wf(&self) -> bool {
        distinct_names(self.entries())
    }

    /// The empty map.
    pub fn new() -> (headers: Headers<'a>)
        ensures
            headers.entries() == Seq::<(Seq<char>, Seq<char>)>::empty(),
            headers@ == Map::<Seq<char>, Seq<char>>::empty(),
            headers.wf(),
    {
        Headers { entries: Vec::new() }
    }

    /// The number of entries.
    pub fn len(&self) -> (n: usize)
        ensures
            n == self.entries().len(),
            n == self@.dom().len(),
            self@.dom().finite(),
    {
        proof {
            use_type_invariant(self);
            lemma_entries_map(self.entries());
        }
        self.entries.len()
    }

    /// The position of the entry named `name`.
    fn find(&self, name: &str) -> (found: Option<usize>)
        ensures
            self.wf(),
            match found {
                Some(i) => i < self.entries().len() && self.entries()[i as int].0 == name@
                    && has_name(self.entries(), name@) && position_of(self.entries(), name@) == i,
                None => !has_name(self.entries(), name@),
            },
    {
        proof {
            use_type_invariant(self);
        }
        let mut i: usize = 0;
        while i < self.entries.len()
            invariant
                i <= self.entries.len(),
                self.entries().len() == self.entries.len(),
                self.wf(),
                forall|j: int| 0 <= j < i ==> (#[trigger] self.entries()[j]).0 != name@,
            decreases self.entries.len() - i,
        {
            if str_eq(self.entries[i].0, name) {
                assert(self.entries()[i as int].0 == name@);
                return Some(i);
            }
            i += 1;
        }
        None
    }

    /// The value stored under `name`.
    pub fn get(&self, name: &str) -> (value: Option<&'a str>)
        ensures
            match value {
                Some(v) => self@.contains_key(name@) && self@[name@] == v@,
                None => !self@.contains_key(name@),
            },
    {
        let found = self.find(name);
        proof {
            lemma_entries_map(self.entries());
        }
        match found {
            Some(i) => Some(self.entries[i].1),
            None => None,
        }
    }

    /// The entries as lines of the form `name:value`, each ended by a line
    /// break, in their stored order.
    pub fn lines(&self) -> (text: String)
        ensures
            text@ == header_lines(self.entries()),
    {
        let mut text = String::new();
        let mut i: usize = 0;
        while i < self.entries.len()
            invariant
                i <= self.entries.len(),
                self.entries().len() == self.entries.len(),
                text@ == header_lines(self.entries().subrange(0, i as int)),
            decreases self.entries.len() - i,
        {
            let (name, value) = self.entries[i];
            assert(self.entries().subrange(0, i + 1).drop_last() =~= self.entries().subrange(
                0,
                i as int,
            ));
            text.append(name);
            text.append(":");
            text.append(value);
            text.append("\r\n");
            assert(text@ =~= header_lines(self.entries().subrange(0, i as int)) + header_line(
                (name@, value@),
            ));
            i += 1;
        }
        assert(self.entries().subrange(0, i as int) =~= self.entries());
        text
    }

    /// Sets `name` to `value` and returns the value that was stored under it
    /// before. An entry that is replaced keeps its place.
    pub fn insert(&mut self, name: &'a str, value: &'a str) -> (previous: Option<&'a str>)
        ensures
            final(self).entries() == entries_insert(old(self).entries(), name@, value@),
            final(self)@ == old(self)@.insert(name@, value@),
            match previous {
                Some(v) => old(self)@.contains_key(name@) && old(self)@[name@] == v@,
                None => !old(self)@.contains_key(name@),
            },
    {
        let found = self.find(name);
        proof {
            lemma_entries_map(self.entries());
            lemma_entries_insert(self.entries(), name@, value@);
        }
        // The entries are taken out, changed and put back, so that the map
        // has distinct names at every moment at which it can be seen.
        let mut entries: Vec<(&'a str, &'a str)> = Vec::new();
        core::mem::swap(&mut self.entries, &mut entries);
        let previous = match found {
            Some(i) => {
                let (held, previous) = entries[i];
                entries.set(i, (held, value));
                Some(previous)
            },
            None => {
                entries.push((name, value));
                None
            },
        };
        assert(texts(entries@) =~= entries_insert(old(self).entries(), name@, value@));
        self.entries = entries;
        previous
    }
}

impl<'a> Clone for Headers<'a> {
    /// A map with the same entries in the same order.
    fn clone(&self) -> (copy: Self)
        ensures
            copy.entries() == self.entries(),
            copy@ == self@,
    {
        proof {
            use_type_invariant(self);
        }
        let mut entries: Vec<(&'a str, &'a str)> = Vec::new();
        let mut i: usize = 0;
        while i < self.entries.len()
            invariant
                i <= self.entries.len(),
                entries@ == self.entries@.subrange(0, i as int),
            decreases self.entries.len() - i,
        {
            entries.push(self.entries[i]);
            i += 1;
        }
        assert(entries@ =~= self.entries@);
        Headers { entries }
    }
}

impl<'a> PartialEq for Headers<'a> {
    /// Whether both maps hold the same values under the same names.
    fn eq(&self, other: &Self) -> (same: bool) {
        proof {
            use_type_invariant(self);
            use_type_invariant(other);
            lemma_entries_map(self.entries());
            lemma_entries_map(other.entries());
        }
        if self.entries.len() != other.entries.len() {
            return false;
        }
        let mut i: usize = 0;
        while i < self.entries.len()
            invariant
                i <= self.entries.len(),
                self.entries().len() == self.entries.len(),
                forall|j: int|
                    0 <= j < self.entries().len() ==> self@.contains_key(
                        (#[trigger] self.entries()[j]).0,
                    ) && self@[self.entries()[j].0] == self.entries()[j].1,
                forall|j: int|
                    0 <= j < i ==> other@.contains_key((#[trigger] self.entries()[j]).0)
                        && other@[self.entries()[j].0] == self.entries()[j].1,
            decreases self.entries.len() - i,
        {
            let (name, value) = self.entries[i];
            assert(self.entries()[i as int] == (name@, value@));
            match other.get(name) {
                Some(held) => {
                    if !str_eq(held, value) {
                        return false;
                    }
                },
                None => {
                    return false;
                },
            }
            i += 1;
        }
        proof {
            assert(self@.dom().subset_of(other@.dom())) by {
                assert forall|name: Seq<char>| self@.dom().contains(name) implies other@.dom()
                    .contains(name) by {
                    let j = position_of(self.entries(), name);
                    assert(self.entries()[j].0 == name);
                }
            }
            lemma_subset_equality(self@.dom(), other@.dom());
            assert forall|name: Seq<char>| self@.dom().contains(name) implies self@[name]
                == other@[name] by {
                let j = position_of(self.entries(), name);
                assert(self.entries()[j].0 == name);
            }
            assert(self@ =~= other@);
        }
        true
    }
}

impl<'a> PartialEqSpecImpl for Headers<'a> {
    open spec fn obeys_eq_spec() -> bool {
        true
    }

    open spec fn eq_spec(&self, other: &Self) -> bool {
        self@ == other@
    }
}

} // verus!

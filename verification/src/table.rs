//! A table of texts by name, for form fields and request headers.

use vstd::prelude::*;

use crate::text::same_text;

verus! {

/// A table of texts by name. A name has at most one text: the last that was put in under it.
#[derive(Debug)]
pub struct Table {
    entries: Vec<(String, String)>,
}

/// The table of a list of named texts, in which a later text takes the place of an earlier one of
/// the same name.
pub open spec fn tabulated(entries: Seq<(Seq<char>, Seq<char>)>) -> Map<Seq<char>, Seq<char>>
    decreases entries.len(),
{
    if entries.len() == 0 {
        Map::empty()
    } else {
        tabulated(entries.drop_last()).insert(entries.last().0, entries.last().1)
    }
}

/// What a list of named strings holds.
pub open spec fn named_texts(entries: Seq<(String, String)>) -> Seq<(Seq<char>, Seq<char>)> {
    entries.map_values(|e: (String, String)| (e.0@, e.1@))
}

/// Whether no name comes twice in a list.
pub open spec fn names_differ(entries: Seq<(Seq<char>, Seq<char>)>) -> bool {
    forall|i: int, j: int|
        0 <= i < j < entries.len() ==> (#[trigger] entries[i]).0 != (#[trigger] entries[j]).0
}

/// A name is in the table if and only if an entry has it, and then has that entry's text.
proof fn lemma_tabulated(entries: Seq<(Seq<char>, Seq<char>)>)
    requires
        names_differ(entries),
    ensures
        forall|i: int|
            0 <= i < entries.len() ==> tabulated(entries).dom().contains(
                (#[trigger] entries[i]).0,
            ) && tabulated(entries)[entries[i].0] == entries[i].1,
        forall|name: Seq<char>| #[trigger]
            tabulated(entries).dom().contains(name) ==> exists|i: int|
                0 <= i < entries.len() && (#[trigger] entries[i]).0 == name,
    decreases entries.len(),
{
    if entries.len() > 0 {
        let shorter = entries.drop_last();
        lemma_tabulated(shorter);
        assert forall|i: int| 0 <= i < entries.len() implies tabulated(entries).dom().contains(
            (#[trigger] entries[i]).0,
        ) && tabulated(entries)[entries[i].0] == entries[i].1 by {
            if i < shorter.len() {
                assert(shorter[i] == entries[i]);
                assert(entries[i].0 != entries[entries.len() - 1].0);
            }
        }
        assert forall|name: Seq<char>| #[trigger]
            tabulated(entries).dom().contains(name) implies exists|i: int|
            0 <= i < entries.len() && (#[trigger] entries[i]).0 == name by {
            if name == entries.last().0 {
                assert(entries[entries.len() - 1].0 == name);
            } else {
                assert(tabulated(shorter).dom().contains(name));
                let i = choose|i: int| 0 <= i < shorter.len() && (#[trigger] shorter[i]).0 == name;
                assert(entries[i].0 == name);
            }
        }
    }
}

/// A table has finitely many names.
pub proof fn lemma_tabulated_is_finite(entries: Seq<(Seq<char>, Seq<char>)>)
    ensures
        tabulated(entries).dom().finite(),
    decreases entries.len(),
{
    if entries.len() > 0 {
        lemma_tabulated_is_finite(entries.drop_last());
    }
}

/// Changing the text of one entry changes the table at that entry's name alone.
proof fn lemma_tabulated_update(entries: Seq<(Seq<char>, Seq<char>)>, i: int, text: Seq<char>)
    requires
        names_differ(entries),
        0 <= i < entries.len(),
    ensures
        names_differ(entries.update(i, (entries[i].0, text))),
        tabulated(entries.update(i, (entries[i].0, text))) == tabulated(entries).insert(
            entries[i].0,
            text,
        ),
{
    let updated = entries.update(i, (entries[i].0, text));
    assert(names_differ(updated)) by {
        assert forall|a: int, b: int| 0 <= a < b < updated.len() implies (#[trigger] updated[a]).0
            != (#[trigger] updated[b]).0 by {
            assert(entries[a].0 != entries[b].0);
        }
    }
    lemma_tabulated(entries);
    lemma_tabulated(updated);
    let before = tabulated(entries).insert(entries[i].0, text);
    let after = tabulated(updated);
    assert forall|name: Seq<char>| after.dom().contains(name) == #[trigger] before.dom().contains(
        name,
    ) && (before.dom().contains(name) ==> after[name] == before[name]) by {
        assert(updated[i].0 == entries[i].0);
        if after.dom().contains(name) {
            let k = choose|k: int| 0 <= k < updated.len() && (#[trigger] updated[k]).0 == name;
            assert(entries[k].0 == name);
            assert(k != i ==> entries[k] == updated[k] && entries[k].0 != entries[i].0);
        }
        if before.dom().contains(name) && name != entries[i].0 {
            let k = choose|k: int| 0 <= k < entries.len() && (#[trigger] entries[k]).0 == name;
            assert(updated[k] == entries[k]);
        }
    }
    assert(after =~= before);
}

impl View for Table {
    type V = Map<Seq<char>, Seq<char>>;

    closed spec fn view(&self) -> Map<Seq<char>, Seq<char>> {
        tabulated(named_texts(self.entries@))
    }
}

impl Table {
    #[verifier::type_invariant]
    spec fn well_formed(self) -> bool {
        names_differ(named_texts(self.entries@))
    }

    /// The empty table.
    pub fn new() -> (table: Table)
        ensures
            table@ == Map::<Seq<char>, Seq<char>>::empty(),
    {
        Table { entries: Vec::new() }
    }

    /// The place of `name` in the entries, or their number where it is not there.
    fn position(&self, name: &str) -> (i: usize)
        ensures
            i <= self.entries@.len(),
            i < self.entries@.len() ==> self.entries@[i as int].0@ == name@,
            forall|j: int| 0 <= j < i ==> (#[trigger] self.entries@[j]).0@ != name@,
    {
        let mut i: usize = 0;
        while i < self.entries.len()
            invariant
                i <= self.entries@.len(),
                forall|j: int| 0 <= j < i ==> (#[trigger] self.entries@[j]).0@ != name@,
            decreases self.entries@.len() - i,
        {
            if same_text(self.entries[i].0.as_str(), name) {
                return i;
            }
            i += 1;
        }
        i
    }

    /// The text under `name`.
    pub fn get(&self, name: &str) -> (text: Option<&String>)
        ensures
            match text {
                Some(text) => self@.dom().contains(name@) && self@[name@] == text@,
                None => !self@.dom().contains(name@),
            },
    {
        proof {
            use_type_invariant(self);
            lemma_tabulated(named_texts(self.entries@));
        }
        let i: usize = self.position(name);
        if i < self.entries.len() {
            proof {
                assert(named_texts(self.entries@)[i as int].0 == name@);
            }
            Some(&self.entries[i].1)
        } else {
            proof {
                if self@.dom().contains(name@) {
                    let j = choose|j: int|
                        0 <= j < self.entries@.len() && (#[trigger] named_texts(
                            self.entries@,
                        )[j]).0 == name@;
                    assert(self.entries@[j].0@ == name@);
                }
            }
            None
        }
    }

    /// Whether there is a text under `name`.
    pub fn contains_key(&self, name: &str) -> (found: bool)
        ensures
            found == self@.dom().contains(name@),
    {
        match self.get(name) {
            Some(_) => true,
            None => false,
        }
    }

    /// Puts `text` under `name`, in place of the text that was there.
    pub fn insert(&mut self, name: String, text: String)
        ensures
            final(self)@ == old(self)@.insert(name@, text@),
    {
        proof {
            use_type_invariant(&*self);
        }
        let i: usize = self.position(name.as_str());
        let mut entries: Vec<(String, String)> = Vec::new();
        std::mem::swap(&mut entries, &mut self.entries);
        let ghost before = named_texts(entries@);
        if i < entries.len() {
            let kept: String = entries[i].0.clone();
            entries.set(i, (kept, text));
            proof {
                lemma_tabulated_update(before, i as int, text@);
                assert(named_texts(entries@) =~= before.update(i as int, (before[i as int].0, text@)));
            }
        } else {
            proof {
                assert forall|j: int| 0 <= j < before.len() implies (#[trigger] before[j]).0
                    != name@ by {
                    assert(entries@[j].0@ != name@);
                }
            }
            entries.push((name, text));
            proof {
                assert(named_texts(entries@) =~= before.push((name@, text@)));
                assert(named_texts(entries@).drop_last() =~= before);
            }
        }
        self.entries = entries;
    }

    /// The entries of the table, with each name once.
    pub fn entries(&self) -> (entries: &Vec<(String, String)>)
        ensures
            names_differ(named_texts(entries@)),
            self@ == tabulated(named_texts(entries@)),
    {
        proof {
            use_type_invariant(self);
        }
        &self.entries
    }
}

} // verus!

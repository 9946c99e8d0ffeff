//! The binding table: which value each variable holds.

use vstd::prelude::*;
use crate::datatypes::DataType;
use crate::identifier::Identifier;

verus! {

/// The map that a list of bindings stands for: each name is mapped to the
/// value that the last binding of that name gives it.
pub open spec fn map_of(bindings: Seq<(Seq<char>, DataType)>) -> Map<Seq<char>, DataType>
    decreases bindings.len(),
{
    if bindings.len() == 0 {
        Map::empty()
    } else {
        map_of(bindings.drop_last()).insert(bindings.last().0, bindings.last().1)
    }
}

/// No name is bound twice.
pub open spec fn distinct_names(bindings: Seq<(Seq<char>, DataType)>) -> bool {
    forall|i: int, j: int|
        0 <= i < j < bindings.len() ==> (#[trigger] bindings[i]).0 != (#[trigger] bindings[j]).0
}

/// A name is in the map exactly if some binding has it.
proof fn map_of_domain(bindings: Seq<(Seq<char>, DataType)>, name: Seq<char>)
    ensures
        map_of(bindings).contains_key(name) <==> exists|i: int|
            0 <= i < bindings.len() && (#[trigger] bindings[i]).0 == name,
    decreases bindings.len(),
{
    if bindings.len() > 0 {
        let front = bindings.drop_last();
        map_of_domain(front, name);
        if exists|i: int| 0 <= i < bindings.len() && (#[trigger] bindings[i]).0 == name {
            let i = choose|i: int| 0 <= i < bindings.len() && (#[trigger] bindings[i]).0 == name;
            if i < bindings.len() - 1 {
                assert(front[i].0 == name);
            }
        }
    }
}

/// Where no name is bound twice, the map gives a name the value of its binding.
proof fn map_of_value(bindings: Seq<(Seq<char>, DataType)>, i: int)
    requires
        distinct_names(bindings),
        0 <= i < bindings.len(),
    ensures
        map_of(bindings).contains_key(bindings[i].0),
        map_of(bindings)[bindings[i].0] == bindings[i].1,
    decreases bindings.len(),
{
    let front = bindings.drop_last();
    if i < bindings.len() - 1 {
        assert(distinct_names(front)) by {
            assert forall|a: int, b: int| 0 <= a < b < front.len() implies (#[trigger] front[a]).0
                != (#[trigger] front[b]).0 by {
                assert(bindings[a].0 != bindings[b].0);
            }
        }
        map_of_value(front, i);
        assert(bindings[i].0 != bindings[bindings.len() - 1].0);
        assert(front[i] == bindings[i]);
    }
}

/// Replacing the value of a binding changes the map at that name only.
proof fn map_of_update(bindings: Seq<(Seq<char>, DataType)>, i: int, value: DataType)
    requires
        distinct_names(bindings),
        0 <= i < bindings.len(),
    ensures
        distinct_names(bindings.update(i, (bindings[i].0, value))),
        map_of(bindings.update(i, (bindings[i].0, value))) == map_of(bindings).insert(
            bindings[i].0,
            value,
        ),
    decreases bindings.len(),
{
    let name = bindings[i].0;
    let updated = bindings.update(i, (name, value));
    assert(distinct_names(updated)) by {
        assert forall|a: int, b: int| 0 <= a < b < updated.len() implies (#[trigger] updated[a]).0
            != (#[trigger] updated[b]).0 by {
            assert(bindings[a].0 != bindings[b].0);
        }
    }
    let front = bindings.drop_last();
    if i == bindings.len() - 1 {
        assert(updated.drop_last() =~= front);
        assert(map_of(updated) =~= map_of(bindings).insert(name, value));
    } else {
        assert(distinct_names(front)) by {
            assert forall|a: int, b: int| 0 <= a < b < front.len() implies (#[trigger] front[a]).0
                != (#[trigger] front[b]).0 by {
                assert(bindings[a].0 != bindings[b].0);
            }
        }
        map_of_update(front, i, value);
        assert(updated.drop_last() =~= front.update(i, (name, value)));
        assert(updated.last() == bindings.last());
        assert(bindings[i].0 != bindings[bindings.len() - 1].0);
        assert(map_of(updated) =~= map_of(bindings).insert(name, value));
    }
}

/// A mapping from identifiers to values, each identifier bound at most once.
pub struct BindingTable {
    entries: Vec<(Identifier, DataType)>,
}

impl BindingTable {
    /// The bindings in the order in which the names were first bound.
    pub closed spec fn bindings(&self) -> Seq<(Seq<char>, DataType)> {
        self.entries@.map_values(|entry: (Identifier, DataType)| (entry.0@, entry.1))
    }

    /// No identifier is bound twice.
    pub closed spec fn well_formed(&self) -> bool {
        distinct_names(self.bindings())
    }

    /// A table without bindings.
    pub fn new() -> (table: BindingTable)
        ensures
            table.well_formed(),
            table@ == Map::<Seq<char>, DataType>::empty(),
    {
        let table = BindingTable { entries: Vec::new() };
        assert(table.bindings() =~= Seq::empty());
        table
    }

    /// Where `identifier` stands among the entries, if it is bound.
    fn position(&self, identifier: &Identifier) -> (found: Option<usize>)
        ensures
            match found {
                Some(i) => i < self.bindings().len() && self.bindings()[i as int].0 == identifier@,
                None => forall|i: int|
                    0 <= i < self.bindings().len() ==> (#[trigger] self.bindings()[i]).0
                        != identifier@,
            },
    {
        let mut i: usize = 0;
        while i < self.entries.len()
            invariant
                i <= self.entries.len(),
                self.bindings().len() == self.entries.len(),
                forall|j: int| 0 <= j < i ==> (#[trigger] self.bindings()[j]).0 != identifier@,
            decreases self.entries.len() - i,
        {
            if self.entries[i].0.0 == identifier.0 {
                return Some(i);
            }
            i = i + 1;
        }
        None
    }

    /// Binds `identifier` to `value`; an earlier binding of it is replaced.
    pub fn bind(&mut self, identifier: Identifier, value: DataType)
        requires
            old(self).well_formed(),
        ensures
            final(self).well_formed(),
            final(self)@ == old(self)@.insert(identifier@, value),
    {
        let ghost before = self.bindings();
        match self.position(&identifier) {
            Some(i) => {
                self.entries.set(i, (identifier, value));
                proof {
                    map_of_update(before, i as int, value);
                    assert(self.bindings() =~= before.update(i as int, (before[i as int].0, value)));
                }
            },
            None => {
                self.entries.push((identifier, value));
                proof {
                    assert(self.bindings() =~= before.push((identifier@, value)));
                    assert(self.bindings().drop_last() =~= before);
                }
            },
        }
    }

    /// The value that `identifier` is bound to, if it is bound.
    pub fn lookup(&self, identifier: &Identifier) -> (value: Option<DataType>)
        requires
            self.well_formed(),
        ensures
            value == if self@.contains_key(identifier@) {
                Some(self@[identifier@])
            } else {
                None
            },
    {
        proof {
            map_of_domain(self.bindings(), identifier@);
        }
        match self.position(identifier) {
            Some(i) => {
                proof {
                    map_of_value(self.bindings(), i as int);
                }
                Some(self.entries[i].1)
            },
            None => None,
        }
    }
}

impl View for BindingTable {
    type V = Map<Seq<char>, DataType>;

    closed spec fn view(&self) -> Map<Seq<char>, DataType> {
        map_of(self.bindings())
    }
}

} // verus!

//! Properties by name.

use vstd::hash_map::StringHashMap;
use vstd::prelude::*;

verus! {

/// One of the names is the given one.
pub open spec fn is_named(names: Seq<String>, name: Seq<char>) -> bool {
    exists|i: int| 0 <= i < names.len() && (#[trigger] names[i])@ == name
}

/// No name stands in the list twice.
pub open spec fn names_differ(names: Seq<String>) -> bool {
    forall|i: int, j: int|
        0 <= i < j < names.len() ==> (#[trigger] names[i])@ != (#[trigger] names[j])@
}

/// The names of a list of properties.
pub open spec fn names_of(entries: Seq<(String, String)>) -> Seq<String> {
    entries.map_values(|entry: (String, String)| entry.0)
}

/// The list holds exactly the given properties, each once.
pub open spec fn holds_exactly(
    entries: Seq<(String, String)>,
    properties: Map<Seq<char>, Seq<char>>,
) -> bool {
    &&& names_differ(names_of(entries))
    &&& forall|i: int|
        0 <= i < entries.len() ==> properties.contains_pair(
            (#[trigger] entries[i]).0@,
            entries[i].1@,
        )
    &&& forall|name: Seq<char>| #[trigger]
        properties.contains_key(name) ==> is_named(names_of(entries), name)
}

/// Properties by name; each name has one value.
pub struct Properties {
    values: StringHashMap<String>,
    names: Vec<String>,
}

impl View for Properties {
    type V = Map<Seq<char>, Seq<char>>;

    closed spec fn view(&self) -> Map<Seq<char>, Seq<char>> {
        self.values@.map_values(|value: String| value@)
    }
}

impl Properties {
    #[verifier::type_invariant]
    spec fn well_formed(self) -> bool {
        &&& names_differ(self.names@)
        &&& forall|name: Seq<char>| #[trigger]
            self.values@.contains_key(name) == is_named(self.names@, name)
    }

    /// Returns a set of no properties.
    pub fn new() -> (properties: Properties)
        ensures
            properties@ == Map::<Seq<char>, Seq<char>>::empty(),
    {
        Properties { values: StringHashMap::new(), names: Vec::new() }
    }

    /// Gives a property its value, in place of one it had before.
    pub fn insert(self, name: String, value: String) -> (properties: Properties)
        ensures
            properties@ == self@.insert(name@, value@),
    {
        proof {
            use_type_invariant(&self);
        }
        let ghost before = self.names@;
        let mut values: StringHashMap<String> = self.values;
        let mut names: Vec<String> = self.names;
        if !values.contains_key(name.as_str()) {
            names.push(name.clone());
            proof {
                assert forall|other: Seq<char>| is_named(names@, other) == (is_named(before, other)
                    || other == name@) by {
                    if is_named(before, other) {
                        let i = choose|i: int|
                            0 <= i < before.len() && (#[trigger] before[i])@ == other;
                        assert(names@[i]@ == other);
                    }
                    if other == name@ {
                        assert(names@[before.len() as int]@ == other);
                    }
                    if is_named(names@, other) && other != name@ {
                        let i = choose|i: int|
                            0 <= i < names@.len() && (#[trigger] names@[i])@ == other;
                        assert(before[i]@ == other);
                    }
                }
                assert forall|i: int, j: int| 0 <= i < j < names@.len() implies (
                #[trigger] names@[i])@ != (#[trigger] names@[j])@ by {
                    assert(before[i]@ == names@[i]@);
                    if j < before.len() {
                        assert(before[i]@ != before[j]@);
                    }
                }
            }
        }
        values.insert(name, value);
        let properties = Properties { values, names };
        assert(properties@ =~= self@.insert(name@, value@));
        properties
    }

    /// Returns the value of a property.
    pub fn get(&self, name: &str) -> (value: Option<&String>)
        ensures
            value is Some == self@.contains_key(name@),
            value matches Some(text) ==> text@ == self@[name@],
    {
        self.values.get(name)
    }

    /// Returns the properties as a list in which no name stands twice.
    pub fn entries(&self) -> (entries: Vec<(String, String)>)
        ensures
            holds_exactly(entries@, self@),
    {
        proof {
            use_type_invariant(self);
        }
        let mut entries: Vec<(String, String)> = Vec::new();
        for i in 0..self.names.len()
            invariant
                self@ == self.values@.map_values(|value: String| value@),
                forall|name: Seq<char>| #[trigger]
                    self.values@.contains_key(name) == is_named(self.names@, name),
                names_of(entries@) =~= self.names@.take(i as int),
                forall|j: int|
                    0 <= j < entries@.len() ==> self@.contains_pair(
                        (#[trigger] entries@[j]).0@,
                        entries@[j].1@,
                    ),
        {
            assert(is_named(self.names@, self.names@[i as int]@));
            let ghost before = entries@;
            if let Some(value) = self.values.get(self.names[i].as_str()) {
                entries.push((self.names[i].clone(), value.clone()));
            }
            assert(names_of(entries@) =~= names_of(before).push(self.names@[i as int]));
        }
        assert(names_of(entries@) =~= self.names@);
        entries
    }
}

/// A list that holds exactly some properties gives each name its value at one
/// place and at no other, and holds nothing else.
pub proof fn lists_of_properties_are_exact(
    entries: Seq<(String, String)>,
    properties: Map<Seq<char>, Seq<char>>,
    name: Seq<char>,
)
    requires
        holds_exactly(entries, properties),
    ensures
        properties.contains_key(name) <==> exists|i: int|
            0 <= i < entries.len() && (#[trigger] entries[i]).0@ == name,
        forall|i: int|
            0 <= i < entries.len() && (#[trigger] entries[i]).0@ == name ==> entries[i].1@
                == properties[name],
        forall|i: int, j: int|
            0 <= i < j < entries.len() ==> (#[trigger] entries[i]).0@ != (#[trigger] entries[j]).0@,
{
    let names = names_of(entries);
    if properties.contains_key(name) {
        let i = choose|i: int| 0 <= i < names.len() && (#[trigger] names[i])@ == name;
        assert(entries[i].0@ == name);
    }
    assert forall|i: int, j: int| 0 <= i < j < entries.len() implies (#[trigger] entries[i]).0@ != (
    #[trigger] entries[j]).0@ by {
        assert(names[i]@ != names[j]@);
    }
}

} // verus!

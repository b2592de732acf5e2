//! A JSON Web Key as this library sees it: a key type, an optional algorithm
//! label, and named parameters that are either strings or something else.

use vstd::prelude::*;

verus! {

/// The value of a parameter: a JSON string, or a JSON value of another kind.
#[derive(Debug, Clone, PartialEq, Eq)]
pub enum JwkValue {
    Text(String),
    Other,
}

impl View for JwkValue {
    type V = Option<Seq<char>>;

    /// The text of a string, `None` for any other value.
    open spec fn view(&self) -> Option<Seq<char>> {
        match self {
            JwkValue::Text(s) => Some(s@),
            JwkValue::Other => None,
        }
    }
}

#[derive(Debug, Clone)]
struct Entry {
    name: String,
    value: JwkValue,
}

/// What a JWK holds.
pub struct JwkView {
    pub key_type: Seq<char>,
    pub algorithm: Option<Seq<char>>,
    pub parameters: Map<Seq<char>, Option<Seq<char>>>,
}

/// A JSON Web Key.
#[derive(Debug, Clone)]
pub struct Jwk {
    key_type: String,
    algorithm: Option<String>,
    entries: Vec<Entry>,
}

spec fn entries_map(entries: Seq<Entry>) -> Map<Seq<char>, Option<Seq<char>>>
    decreases entries.len(),
{
    if entries.len() == 0 {
        Map::empty()
    } else {
        entries_map(entries.drop_last()).insert(entries.last().name@, entries.last().value@)
    }
}

proof fn lemma_entries_map_replace(entries: Seq<Entry>, i: int, entry: Entry)
    requires
        0 <= i < entries.len(),
        entries[i].name@ == entry.name@,
        forall|j: int| i < j < entries.len() ==> entries[j].name@ != entry.name@,
    ensures
        entries_map(entries.update(i, entry)) == entries_map(entries).insert(
            entry.name@,
            entry.value@,
        ),
    decreases entries.len(),
{
    let after = entries.update(i, entry);
    if i == entries.len() - 1 {
        assert(after.drop_last() =~= entries.drop_last());
        assert(entries_map(after) =~= entries_map(entries).insert(entry.name@, entry.value@));
    } else {
        lemma_entries_map_replace(entries.drop_last(), i, entry);
        assert(after.drop_last() =~= entries.drop_last().update(i, entry));
        assert(after.last() == entries.last());
        assert(entries_map(after) =~= entries_map(entries).insert(entry.name@, entry.value@));
    }
}

proof fn lemma_entries_map_absent(entries: Seq<Entry>, name: Seq<char>)
    requires
        forall|j: int| 0 <= j < entries.len() ==> entries[j].name@ != name,
    ensures
        !entries_map(entries).contains_key(name),
    decreases entries.len(),
{
    if entries.len() > 0 {
        lemma_entries_map_absent(entries.drop_last(), name);
    }
}

proof fn lemma_entries_map_last_match(entries: Seq<Entry>, i: int)
    requires
        0 <= i < entries.len(),
        forall|j: int| i < j < entries.len() ==> entries[j].name@ != entries[i].name@,
    ensures
        entries_map(entries).contains_key(entries[i].name@),
        entries_map(entries)[entries[i].name@] == entries[i].value@,
    decreases entries.len(),
{
    if i < entries.len() - 1 {
        lemma_entries_map_last_match(entries.drop_last(), i);
    }
}

impl View for Jwk {
    type V = JwkView;

    closed spec fn view(&self) -> JwkView {
        JwkView {
            key_type: self.key_type@,
            algorithm: match self.algorithm {
                Some(a) => Some(a@),
                None => None,
            },
            parameters: entries_map(self.entries@),
        }
    }
}

impl Jwk {
    /// A key of the type `key_type`, without algorithm or parameters.
    pub fn new(key_type: &str) -> (jwk: Jwk)
        ensures
            jwk@.key_type == key_type@,
            jwk@.algorithm is None,
            jwk@.parameters == Map::<Seq<char>, Option<Seq<char>>>::empty(),
    {
        Jwk { key_type: key_type.to_owned(), algorithm: None, entries: Vec::new() }
    }

    /// The key type, the parameter `kty` of the JSON form.
    pub fn key_type(&self) -> (res: &str)
        ensures
            res@ == self@.key_type,
    {
        self.key_type.as_str()
    }

    /// The algorithm label, the parameter `alg` of the JSON form.
    pub fn algorithm(&self) -> (res: Option<&str>)
        ensures
            match res {
                Some(a) => self@.algorithm == Some(a@),
                None => self@.algorithm is None,
            },
    {
        match &self.algorithm {
            Some(a) => Some(a.as_str()),
            None => None,
        }
    }

    /// Sets the algorithm label.
    pub fn set_algorithm(&mut self, value: &str)
        ensures
            final(self)@ == (JwkView { algorithm: Some(value@), ..old(self)@ }),
    {
        self.algorithm = Some(value.to_owned());
    }

    fn last_index_of(&self, name: &String) -> (res: Option<usize>)
        ensures
            match res {
                Some(i) => {
                    &&& i < self.entries@.len()
                    &&& self.entries@[i as int].name@ == name@
                    &&& forall|j: int|
                        i < j < self.entries@.len() ==> self.entries@[j].name@ != name@
                },
                None => forall|j: int|
                    0 <= j < self.entries@.len() ==> self.entries@[j].name@ != name@,
            },
    {
        let mut i: usize = self.entries.len();
        while i > 0
            invariant
                i <= self.entries@.len(),
                forall|j: int| i <= j < self.entries@.len() ==> self.entries@[j].name@ != name@,
            decreases i,
        {
            i = i - 1;
            if self.entries[i].name == *name {
                return Some(i);
            }
        }
        None
    }

    /// The value of the parameter `name`, if the key has it.
    pub fn parameter(&self, name: &str) -> (res: Option<&JwkValue>)
        ensures
            match res {
                Some(v) => self@.parameters.contains_key(name@) && self@.parameters[name@] == v@,
                None => !self@.parameters.contains_key(name@),
            },
    {
        let owned: String = name.to_owned();
        match self.last_index_of(&owned) {
            Some(i) => {
                proof {
                    lemma_entries_map_last_match(self.entries@, i as int);
                }
                Some(&self.entries[i].value)
            },
            None => {
                proof {
                    lemma_entries_map_absent(self.entries@, name@);
                }
                None
            },
        }
    }

    /// Gives the parameter `name` the value `value`, in place of the one it
    /// had, if any.
    pub fn set_parameter(&mut self, name: &str, value: JwkValue)
        ensures
            final(self)@ == (JwkView {
                parameters: old(self)@.parameters.insert(name@, value@),
                ..old(self)@
            }),
    {
        let owned: String = name.to_owned();
        let entry = Entry { name: owned, value };
        match self.last_index_of(&entry.name) {
            Some(i) => {
                proof {
                    lemma_entries_map_replace(self.entries@, i as int, entry);
                }
                self.entries.set(i, entry);
            },
            None => {
                self.entries.push(entry);
                assert(self.entries@.drop_last() =~= old(self).entries@);
            },
        }
    }
}

} // verus!

//! The symbol table: every name is a label or a constant, never both.

use crate::text::same_bytes;
use vstd::prelude::*;

verus! {

/// What a name stands for.
#[derive(Clone, Copy, Debug, PartialEq, Eq, Structural)]
pub enum PreprocessorConstant {
    /// A label, with its byte offset in the image.
    Label(u32),
    /// A constant, with its value.
    Define(u32),
}

/// The names declared so far. Names are compared byte by byte.
pub struct SymbolTable {
    names: Vec<Vec<u8>>,
    values: Vec<PreprocessorConstant>,
    model: Ghost<Map<Seq<u8>, PreprocessorConstant>>,
}

impl View for SymbolTable {
    type V = Map<Seq<u8>, PreprocessorConstant>;

    closed spec fn view(&self) -> Map<Seq<u8>, PreprocessorConstant> {
        self.model@
    }
}

impl SymbolTable {
    /// The table lists each name once, with the value that the model gives it.
    pub closed spec fn wf(&self) -> bool {
        &&& self.names.len() == self.values.len()
        &&& forall|i: int|
            0 <= i < self.names.len() ==> self.model@.contains_key(#[trigger] self.names[i]@)
                && self.model@[self.names[i]@] == self.values[i]
        &&& forall|key: Seq<u8>| #[trigger]
            self.model@.contains_key(key) ==> exists|i: int|
                0 <= i < self.names.len() && #[trigger] self.names[i]@ == key
        &&& forall|i: int, j: int|
            0 <= i < j < self.names.len() ==> #[trigger] self.names[i]@ != #[trigger] self.names[j]@
    }

    /// A table without names.
    pub fn new() -> (table: SymbolTable)
        ensures
            table.wf(),
            table@ == Map::<Seq<u8>, PreprocessorConstant>::empty(),
    {
        SymbolTable { names: Vec::new(), values: Vec::new(), model: Ghost(Map::empty()) }
    }

    /// Where `name` stands in the list of names, if it is declared.
    fn find(&self, name: &[u8]) -> (found: Option<usize>)
        requires
            self.wf(),
        ensures
            match found {
                Some(index) => index < self.names.len() && self.names[index as int]@ == name@,
                None => !self@.contains_key(name@),
            },
    {
        let mut index: usize = 0;
        while index < self.names.len()
            invariant
                index <= self.names.len(),
                forall|i: int| 0 <= i < index ==> self.names[i]@ != name@,
            decreases self.names.len() - index,
        {
            if same_bytes(self.names[index].as_slice(), name) {
                return Some(index);
            }
            index += 1;
        }
        None
    }

    /// What `name` stands for, if it is declared.
    pub fn get(&self, name: &[u8]) -> (value: Option<PreprocessorConstant>)
        requires
            self.wf(),
        ensures
            value == (if self@.contains_key(name@) {
                Some(self@[name@])
            } else {
                None
            }),
    {
        match self.find(name) {
            Some(index) => Some(self.values[index]),
            None => None,
        }
    }

    /// Declares `name` as `value`, and hands back what it stood for before.
    pub fn insert(&mut self, name: Vec<u8>, value: PreprocessorConstant) -> (before: Option<
        PreprocessorConstant,
    >)
        requires
            old(self).wf(),
        ensures
            final(self).wf(),
            final(self)@ == old(self)@.insert(name@, value),
            before == (if old(self)@.contains_key(name@) {
                Some(old(self)@[name@])
            } else {
                None
            }),
    {
        match self.find(name.as_slice()) {
            Some(index) => {
                let before = self.values[index];
                self.values.set(index, value);
                self.model = Ghost(self.model@.insert(name@, value));
                assert forall|key: Seq<u8>| #[trigger]
                    self.model@.contains_key(key) implies exists|i: int|
                    0 <= i < self.names.len() && #[trigger] self.names[i]@ == key by {
                    if key != name@ {
                        assert(old(self).model@.contains_key(key));
                        let i = choose|i: int|
                            0 <= i < old(self).names.len() && #[trigger] old(self).names[i]@
                                == key;
                        assert(self.names[i]@ == key);
                    } else {
                        assert(self.names[index as int]@ == key);
                    }
                }
                Some(before)
            },
            None => {
                let ghost key_added = name@;
                self.names.push(name);
                self.values.push(value);
                self.model = Ghost(self.model@.insert(key_added, value));
                assert forall|i: int| 0 <= i < self.names.len() implies self.model@.contains_key(
                    #[trigger] self.names[i]@,
                ) && self.model@[self.names[i]@] == self.values[i] by {
                    if i < old(self).names.len() {
                        assert(self.names[i] == old(self).names[i]);
                    }
                }
                assert forall|key: Seq<u8>| #[trigger]
                    self.model@.contains_key(key) implies exists|i: int|
                    0 <= i < self.names.len() && #[trigger] self.names[i]@ == key by {
                    if key != key_added {
                        assert(old(self).model@.contains_key(key));
                        let i = choose|i: int|
                            0 <= i < old(self).names.len() && #[trigger] old(self).names[i]@
                                == key;
                        assert(self.names[i] == old(self).names[i]);
                    } else {
                        assert(self.names[self.names.len() - 1]@ == key);
                    }
                }
                assert forall|i: int, j: int| 0 <= i < j < self.names.len() implies #[trigger]
                    self.names[i]@ != #[trigger] self.names[j]@ by {
                    assert(self.names[i] == old(self).names[i]);
                    if j < old(self).names.len() {
                        assert(self.names[j] == old(self).names[j]);
                    }
                }
                None
            },
        }
    }
}

} // verus!

use vstd::prelude::*;
use crate::tables::str_eq;

verus! {

/// A mapping from symbol names to addresses, in which a name, once bound,
/// keeps its value.
pub struct SymbolTable {
    names: Vec<String>,
    values: Vec<usize>,
    contents: Ghost<Map<Seq<char>, usize>>,
}

impl View for SymbolTable {
    type V = Map<Seq<char>, usize>;

    closed spec fn view(&self) -> Map<Seq<char>, usize> {
        self.contents@
    }
}

impl SymbolTable {
    /// The entries held agree with the mapping.
    pub closed spec fn wf(&self) -> bool {
        &&& self.names@.len() == self.values@.len()
        &&& forall|i: int|
            0 <= i < self.names@.len() ==> self.contents@.contains_key(#[trigger] self.names@[i]@)
                && self.contents@[self.names@[i]@] == self.values@[i]
        &&& forall|k: Seq<char>|
            #[trigger] self.contents@.contains_key(k) ==> exists|i: int|
                0 <= i < self.names@.len() && self.names@[i]@ == k
    }

    /// An empty table.
    pub fn new() -> (r: SymbolTable)
        ensures
            r.wf(),
            r@ == Map::<Seq<char>, usize>::empty(),
    {
        SymbolTable { names: Vec::new(), values: Vec::new(), contents: Ghost(Map::empty()) }
    }

    /// The value bound to `name`, if any.
    pub fn get(&self, name: &str) -> (r: Option<usize>)
        requires
            self.wf(),
        ensures
            r == (if self@.contains_key(name@) {
                Some(self@[name@])
            } else {
                None
            }),
    {
        let mut i: usize = 0;
        while i < self.names.len()
            invariant
                self.wf(),
                i <= self.names@.len(),
                forall|j: int| 0 <= j < i ==> self.names@[j]@ != name@,
            decreases self.names@.len() - i,
        {
            if str_eq(self.names[i].as_str(), name) {
                return Some(self.values[i]);
            }
            i = i + 1;
        }
        None
    }

    /// Binds `name` to `value` unless it is bound already; tells whether it
    /// did. A name that is bound keeps its value.
    pub fn bind(&mut self, name: &str, value: usize) -> (r: bool)
        requires
            old(self).wf(),
        ensures
            final(self).wf(),
            r == !old(self)@.contains_key(name@),
            r ==> final(self)@ == old(self)@.insert(name@, value),
            !r ==> final(self)@ == old(self)@,
    {
        if self.get(name).is_some() {
            return false;
        }
        self.names.push(String::from_str(name));
        self.values.push(value);
        self.contents = Ghost(self.contents@.insert(name@, value));
        proof {
            let n = self.names@.len() - 1;
            assert(self.names@[n as int]@ == name@);
            assert forall|k: Seq<char>| #[trigger] self.contents@.contains_key(k) implies exists|
                i: int,
            | 0 <= i < self.names@.len() && self.names@[i]@ == k by {
                if k != name@ {
                    let i = choose|i: int|
                        0 <= i < old(self).names@.len() && old(self).names@[i]@ == k;
                    assert(self.names@[i]@ == k);
                }
            }
        }
        true
    }
}

} // verus!

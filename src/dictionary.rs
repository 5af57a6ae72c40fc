//! The dictionary of user-defined words: a map from a word's name to its
//! body, a sequence of tokens kept as written.
use vstd::prelude::*;
use crate::text::same_text;

verus! {

/// The characters of each token of a sequence.
pub open spec fn texts(v: Seq<String>) -> Seq<Seq<char>> {
    v.map_values(|s: String| s@)
}

/// Copies a sequence of tokens.
pub fn copy_tokens(v: &Vec<String>) -> (r: Vec<String>)
    ensures
        texts(r@) == texts(v@),
{
    let mut r: Vec<String> = Vec::new();
    let mut i: usize = 0;
    while i < v.len()
        invariant
            0 <= i <= v@.len(),
            r@.len() == i,
            forall|j: int| 0 <= j < i ==> #[trigger] r@[j]@ == v@[j]@,
        decreases v@.len() - i,
    {
        let c = v[i].clone();
        r.push(c);
        i = i + 1;
    }
    assert(texts(r@) =~= texts(v@));
    r
}

/// The user-defined words, each name once.
pub struct Dictionary {
    names: Vec<String>,
    bodies: Vec<Vec<String>>,
}

impl View for Dictionary {
    type V = Map<Seq<char>, Seq<Seq<char>>>;

    closed spec fn view(&self) -> Map<Seq<char>, Seq<Seq<char>>> {
        Map::new(
            |k: Seq<char>| exists|i: int| 0 <= i < self.names@.len() && self.names@[i]@ == k,
            |k: Seq<char>|
                texts(
                    self.bodies@[choose|i: int|
                        0 <= i < self.names@.len() && self.names@[i]@ == k]@,
                ),
        )
    }
}

impl Dictionary {
    /// One body for each name, and no name twice.
    pub closed spec fn wf(&self) -> bool {
        &&& self.names@.len() == self.bodies@.len()
        &&& forall|i: int, j: int|
            0 <= i < self.names@.len() && 0 <= j < self.names@.len() && self.names@[i]@
                == self.names@[j]@ ==> i == j
    }

    proof fn lemma_entry(&self, i: int)
        requires
            self.wf(),
            0 <= i < self.names@.len(),
        ensures
            self@.contains_key(self.names@[i]@),
            self@[self.names@[i]@] == texts(self.bodies@[i]@),
    {
        let k = self.names@[i]@;
        assert(exists|j: int| 0 <= j < self.names@.len() && self.names@[j]@ == k) by {
            assert(self.names@[i]@ == k);
        }
        let j = choose|j: int| 0 <= j < self.names@.len() && self.names@[j]@ == k;
        assert(j == i);
    }

    /// An empty dictionary.
    pub fn new() -> (r: Dictionary)
        ensures
            r.wf(),
            r@ == Map::<Seq<char>, Seq<Seq<char>>>::empty(),
    {
        let r = Dictionary { names: Vec::new(), bodies: Vec::new() };
        assert(r@ =~= Map::<Seq<char>, Seq<Seq<char>>>::empty());
        r
    }

    /// Where the name stands among the entries, if it is defined.
    fn position(&self, name: &str) -> (r: Option<usize>)
        requires
            self.wf(),
        ensures
            match r {
                Some(i) => i < self.names@.len() && self.names@[i as int]@ == name@,
                None => !self@.contains_key(name@),
            },
    {
        let mut i: usize = 0;
        while i < self.names.len()
            invariant
                self.wf(),
                0 <= i <= self.names@.len(),
                forall|j: int| 0 <= j < i ==> self.names@[j]@ != name@,
            decreases self.names@.len() - i,
        {
            if same_text(self.names[i].as_str(), name) {
                return Some(i);
            }
            i = i + 1;
        }
        None
    }

    /// The body of the word of that name, if it is defined.
    pub fn get(&self, name: &str) -> (r: Option<Vec<String>>)
        requires
            self.wf(),
        ensures
            match r {
                Some(b) => self@.contains_key(name@) && texts(b@) == self@[name@],
                None => !self@.contains_key(name@),
            },
    {
        match self.position(name) {
            Some(i) => {
                proof {
                    self.lemma_entry(i as int);
                }
                Some(copy_tokens(&self.bodies[i]))
            },
            None => None,
        }
    }

    /// Defines a word, replacing an earlier definition of the same name.
    pub fn define(&mut self, name: String, body: Vec<String>)
        requires
            old(self).wf(),
        ensures
            final(self).wf(),
            final(self)@ == old(self)@.insert(name@, texts(body@)),
    {
        let ghost b = texts(body@);
        match self.position(name.as_str()) {
            Some(i) => {
                self.bodies.set(i, body);
                proof {
                    let o = *old(self);
                    assert forall|k: Seq<char>|
                        #![auto]
                        self@.contains_key(k) implies o@.insert(name@, b).contains_key(k)
                        && self@[k] == o@.insert(name@, b)[k] by {
                        let j = choose|j: int| 0 <= j < self.names@.len() && self.names@[j]@ == k;
                        self.lemma_entry(j);
                        o.lemma_entry(j);
                    }
                    assert forall|k: Seq<char>|
                        #![auto]
                        o@.insert(name@, b).contains_key(k) implies self@.contains_key(k) by {
                        if k != name@ {
                            let j = choose|j: int| 0 <= j < o.names@.len() && o.names@[j]@ == k;
                            self.lemma_entry(j);
                        } else {
                            self.lemma_entry(i as int);
                        }
                    }
                    assert(self@ =~= o@.insert(name@, b));
                }
            },
            None => {
                self.names.push(name);
                self.bodies.push(body);
                proof {
                    let o = *old(self);
                    let n = o.names@.len() as int;
                    assert forall|k: Seq<char>|
                        #![auto]
                        self@.contains_key(k) implies o@.insert(name@, b).contains_key(k)
                        && self@[k] == o@.insert(name@, b)[k] by {
                        let j = choose|j: int| 0 <= j < self.names@.len() && self.names@[j]@ == k;
                        self.lemma_entry(j);
                        if j < n {
                            o.lemma_entry(j);
                        }
                    }
                    assert forall|k: Seq<char>|
                        #![auto]
                        o@.insert(name@, b).contains_key(k) implies self@.contains_key(k) by {
                        if k != name@ {
                            let j = choose|j: int| 0 <= j < o.names@.len() && o.names@[j]@ == k;
                            self.lemma_entry(j);
                        } else {
                            self.lemma_entry(n);
                        }
                    }
                    assert(self@ =~= o@.insert(name@, b));
                }
            },
        }
    }
}

} // verus!

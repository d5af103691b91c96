//! The header mapping of a request or response: each name has at most one
//! value.
//!
//! The mapping is kept as a list in which no name occurs twice. vstd gives
//! no key model for `String`, so of a hash map keyed by one nothing could
//! be proved.

use vstd::prelude::*;

verus! {

/// Whether no name occurs twice among `pairs`.
pub open spec fn distinct_names(pairs: Seq<(Seq<char>, Seq<char>)>) -> bool {
    forall|i: int, j: int| 0 <= i < j < pairs.len() ==> (#[trigger] pairs[i]).0 != (#[trigger] pairs[j]).0
}

/// Whether `name` occurs among `pairs`.
pub open spec fn has_name(pairs: Seq<(Seq<char>, Seq<char>)>, name: Seq<char>) -> bool {
    exists|i: int| 0 <= i < pairs.len() && (#[trigger] pairs[i]).0 == name
}

/// A place at which `name` occurs among `pairs`.
pub open spec fn place_of(pairs: Seq<(Seq<char>, Seq<char>)>, name: Seq<char>) -> int {
    choose|i: int| 0 <= i < pairs.len() && (#[trigger] pairs[i]).0 == name
}

/// The mapping that a list of pairs stands for.
pub open spec fn mapping_of(pairs: Seq<(Seq<char>, Seq<char>)>) -> Map<Seq<char>, Seq<char>> {
    Map::new(
        |name: Seq<char>| has_name(pairs, name),
        |name: Seq<char>| pairs[place_of(pairs, name)].1,
    )
}

/// The pairs that a list of owned pairs stands for.
pub open spec fn pairs_of(entries: Seq<(String, String)>) -> Seq<(Seq<char>, Seq<char>)> {
    Seq::new(entries.len(), |i: int| (entries[i].0@, entries[i].1@))
}

/// The mapping that comes of giving each name its value in turn, so that of
/// two pairs with one name the later decides.
pub open spec fn collected(pairs: Seq<(Seq<char>, Seq<char>)>) -> Map<Seq<char>, Seq<char>>
    decreases pairs.len(),
{
    if pairs.len() == 0 {
        Map::empty()
    } else {
        collected(pairs.drop_last()).insert(pairs.last().0, pairs.last().1)
    }
}

/// Where names are distinct, a pair in the list is the mapping's entry for
/// its name.
pub proof fn lemma_mapping_entry(pairs: Seq<(Seq<char>, Seq<char>)>, i: int)
    requires
        distinct_names(pairs),
        0 <= i < pairs.len(),
    ensures
        mapping_of(pairs).contains_key(pairs[i].0),
        mapping_of(pairs)[pairs[i].0] == pairs[i].1,
{
    let name = pairs[i].0;
    let j = place_of(pairs, name);
    assert(0 <= j < pairs.len() && pairs[j].0 == name);
    if j < i {
        assert(pairs[j].0 != pairs[i].0);
    } else if i < j {
        assert(pairs[i].0 != pairs[j].0);
    }
}

/// Replacing the value at the place where a name stands is an insertion
/// into the mapping.
pub proof fn lemma_mapping_update(
    pairs: Seq<(Seq<char>, Seq<char>)>,
    i: int,
    name: Seq<char>,
    value: Seq<char>,
)
    requires
        distinct_names(pairs),
        0 <= i < pairs.len(),
        pairs[i].0 == name,
    ensures
        distinct_names(pairs.update(i, (name, value))),
        mapping_of(pairs.update(i, (name, value))) == mapping_of(pairs).insert(name, value),
{
    let after = pairs.update(i, (name, value));
    assert forall|a: int, b: int| 0 <= a < b < after.len() implies (#[trigger] after[a]).0 != (
    #[trigger] after[b]).0 by {
        assert(after[a].0 == pairs[a].0);
        assert(after[b].0 == pairs[b].0);
    }
    assert forall|key: Seq<char>| has_name(after, key) <==> has_name(pairs, key) by {
        if has_name(after, key) {
            let k = place_of(after, key);
            assert(pairs[k].0 == key);
        }
        if has_name(pairs, key) {
            let k = place_of(pairs, key);
            assert(after[k].0 == key);
        }
    }
    assert forall|key: Seq<char>| has_name(after, key) implies #[trigger] mapping_of(after)[key]
        == mapping_of(pairs).insert(name, value)[key] by {
        let k = place_of(after, key);
        assert(0 <= k < after.len() && after[k].0 == key);
        lemma_mapping_entry(after, k);
        if key == name {
            lemma_mapping_entry(after, i);
        } else {
            assert(k != i);
            assert(pairs[k] == after[k]);
            lemma_mapping_entry(pairs, k);
        }
    }
    assert(mapping_of(after) =~= mapping_of(pairs).insert(name, value));
}

/// Appending a name that does not occur yet is an insertion into the
/// mapping.
pub proof fn lemma_mapping_push(pairs: Seq<(Seq<char>, Seq<char>)>, name: Seq<char>, value: Seq<char>)
    requires
        distinct_names(pairs),
        !has_name(pairs, name),
    ensures
        distinct_names(pairs.push((name, value))),
        mapping_of(pairs.push((name, value))) == mapping_of(pairs).insert(name, value),
{
    let after = pairs.push((name, value));
    assert forall|a: int, b: int| 0 <= a < b < after.len() implies (#[trigger] after[a]).0 != (
    #[trigger] after[b]).0 by {
        assert(after[a] == pairs[a]);
        if b < pairs.len() {
            assert(after[b] == pairs[b]);
        }
    }
    assert(after[pairs.len() as int].0 == name);
    assert forall|key: Seq<char>| has_name(after, key) <==> (key == name || has_name(pairs, key)) by {
        if has_name(after, key) {
            let k = place_of(after, key);
            if k < pairs.len() {
                assert(pairs[k].0 == key);
            }
        }
        if has_name(pairs, key) {
            let k = place_of(pairs, key);
            assert(after[k].0 == key);
        }
    }
    assert forall|key: Seq<char>| has_name(after, key) implies #[trigger] mapping_of(after)[key]
        == mapping_of(pairs).insert(name, value)[key] by {
        let k = place_of(after, key);
        assert(0 <= k < after.len() && after[k].0 == key);
        lemma_mapping_entry(after, k);
        if key == name {
            lemma_mapping_entry(after, pairs.len() as int);
        } else {
            assert(k < pairs.len());
            assert(pairs[k] == after[k]);
            lemma_mapping_entry(pairs, k);
        }
    }
    assert(mapping_of(after) =~= mapping_of(pairs).insert(name, value));
}

/// A mapping from header names to values, kept as a list in which no name
/// occurs twice.
#[derive(Debug)]
pub struct Headers {
    entries: Vec<(String, String)>,
}

impl View for Headers {
    type V = Map<Seq<char>, Seq<char>>;

    closed spec fn view(&self) -> Map<Seq<char>, Seq<char>> {
        mapping_of(pairs_of(self.entries@))
    }
}

impl Headers {
    #[verifier::type_invariant]
    spec fn well_formed(self) -> bool {
        distinct_names(pairs_of(self.entries@))
    }

    /// The mapping without any name.
    pub fn new() -> (headers: Headers)
        ensures
            headers@ == Map::<Seq<char>, Seq<char>>::empty(),
    {
        let headers = Headers { entries: Vec::new() };
        assert(headers@ =~= Map::<Seq<char>, Seq<char>>::empty());
        headers
    }

    /// The mapping that comes of giving each name of `pairs` its value in
    /// turn.
    pub fn from_pairs(pairs: Vec<(String, String)>) -> (headers: Headers)
        ensures
            headers@ == collected(pairs_of(pairs@)),
    {
        let mut headers = Headers::new();
        let mut i: usize = 0;
        while i < pairs.len()
            invariant
                i <= pairs.len(),
                headers@ == collected(pairs_of(pairs@).take(i as int)),
            decreases pairs.len() - i,
        {
            proof {
                let all = pairs_of(pairs@);
                assert(all.take(i + 1).drop_last() =~= all.take(i as int));
                assert(all.take(i + 1).last() == all[i as int]);
            }
            headers.insert(pairs[i].0.clone(), pairs[i].1.clone());
            i += 1;
        }
        assert(pairs_of(pairs@).take(i as int) =~= pairs_of(pairs@));
        headers
    }

    /// Where `name` stands in the list, if it does.
    fn find(&self, name: &String) -> (place: Option<usize>)
        ensures
            match place {
                Some(i) => i < self.entries.len() && self.entries[i as int].0@ == name@,
                None => !has_name(pairs_of(self.entries@), name@),
            },
    {
        let mut i: usize = 0;
        while i < self.entries.len()
            invariant
                i <= self.entries.len(),
                forall|k: int| 0 <= k < i ==> (#[trigger] pairs_of(self.entries@)[k]).0 != name@,
            decreases self.entries.len() - i,
        {
            if self.entries[i].0 == *name {
                return Some(i);
            }
            i += 1;
        }
        None
    }

    /// Gives `name` the value `value`, in place of any value it had.
    pub fn insert(&mut self, name: String, value: String)
        ensures
            final(self)@ == old(self)@.insert(name@, value@),
    {
        proof {
            use_type_invariant(&*self);
        }
        let place = self.find(&name);
        let mut taken = Headers::new();
        std::mem::swap(self, &mut taken);
        let mut entries = taken.entries;
        let ghost before = pairs_of(entries@);
        match place {
            Some(i) => {
                proof {
                    lemma_mapping_update(before, i as int, name@, value@);
                }
                entries.set(i, (name, value));
                assert(pairs_of(entries@) =~= before.update(i as int, (name@, value@)));
            },
            None => {
                proof {
                    lemma_mapping_push(before, name@, value@);
                }
                entries.push((name, value));
                assert(pairs_of(entries@) =~= before.push((name@, value@)));
            },
        }
        *self = Headers { entries };
    }

    /// The value of `name`, if it has one.
    pub fn get(&self, name: &str) -> (value: Option<String>)
        ensures
            match value {
                Some(value) => self@.contains_key(name@) && self@[name@] == value@,
                None => !self@.contains_key(name@),
            },
    {
        proof {
            use_type_invariant(self);
        }
        let key = name.to_owned();
        match self.find(&key) {
            Some(i) => {
                proof {
                    lemma_mapping_entry(pairs_of(self.entries@), i as int);
                }
                Some(self.entries[i].1.clone())
            },
            None => None,
        }
    }

    /// How many names have a value.
    pub fn len(&self) -> (n: usize)
        ensures
            n == self@.dom().len(),
            self@.dom().finite(),
    {
        proof {
            use_type_invariant(self);
            lemma_mapping_size(pairs_of(self.entries@));
        }
        self.entries.len()
    }

    /// Every name with its value, each name once.
    pub fn to_vec(&self) -> (pairs: Vec<(String, String)>)
        ensures
            distinct_names(pairs_of(pairs@)),
            mapping_of(pairs_of(pairs@)) == self@,
    {
        proof {
            use_type_invariant(self);
        }
        let mut pairs: Vec<(String, String)> = Vec::new();
        let mut i: usize = 0;
        while i < self.entries.len()
            invariant
                i <= self.entries.len(),
                pairs_of(pairs@) =~= pairs_of(self.entries@).take(i as int),
            decreases self.entries.len() - i,
        {
            let ghost before = pairs@;
            pairs.push((self.entries[i].0.clone(), self.entries[i].1.clone()));
            proof {
                let all = pairs_of(self.entries@);
                assert(all.take(i + 1) =~= all.take(i as int).push(all[i as int]));
                assert(pairs_of(pairs@) =~= pairs_of(before).push(all[i as int]));
            }
            i += 1;
        }
        assert(pairs_of(self.entries@).take(i as int) =~= pairs_of(self.entries@));
        pairs
    }
}

/// A list of distinct names stands for a mapping of as many names.
pub proof fn lemma_mapping_size(pairs: Seq<(Seq<char>, Seq<char>)>)
    requires
        distinct_names(pairs),
    ensures
        mapping_of(pairs).dom().finite(),
        mapping_of(pairs).dom().len() == pairs.len(),
    decreases pairs.len(),
{
    if pairs.len() == 0 {
        assert(mapping_of(pairs).dom() =~= Set::<Seq<char>>::empty());
    } else {
        let front = pairs.drop_last();
        let last = pairs.last();
        assert forall|a: int, b: int| 0 <= a < b < front.len() implies (#[trigger] front[a]).0 != (
        #[trigger] front[b]).0 by {
            assert(front[a] == pairs[a]);
            assert(front[b] == pairs[b]);
        }
        lemma_mapping_size(front);
        if has_name(front, last.0) {
            let k = place_of(front, last.0);
            assert(pairs[k] == front[k]);
            assert(pairs[k].0 != pairs[pairs.len() - 1].0);
        }
        lemma_mapping_push(front, last.0, last.1);
        assert(front.push((last.0, last.1)) =~= pairs);
        assert(mapping_of(pairs).dom() =~= mapping_of(front).dom().insert(last.0));
    }
}

} // verus!

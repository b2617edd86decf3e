use vstd::prelude::*;
use std::collections::HashMap;
use crate::profile::HasId;

verus! {

broadcast use vstd::std_specs::hash::group_hash_axioms;

/// Items of any kind that carries an identifier, keyed by identifiers that
/// the repository assigns from 1 upwards, never reusing one.
#[derive(Debug)]
pub struct Repository<T> {
    items: HashMap<u32, T>,
    next_id: u32,
}

impl<T> View for Repository<T> {
    type V = Map<u32, T>;

    closed spec fn view(&self) -> Map<u32, T> {
        self.items@
    }
}

impl<T: HasId> Repository<T> {
    /// The identifier that the next `add` will assign.
    pub closed spec fn next(&self) -> u32 {
        self.next_id
    }

    /// The identifiers held are exactly `1 .. next()`, and each item
    /// carries its own key.
    pub closed spec fn wf(&self) -> bool {
        &&& 1 <= self.next_id
        &&& forall|k: u32| #[trigger] self.items@.contains_key(k) <==> 1 <= k < self.next_id
        &&& forall|k: u32| #[trigger] self.items@.contains_key(k) ==> self.items@[k].id_of() == k
    }

    /// The items in the order of their identifiers.
    pub open spec fn listing(&self) -> Seq<T> {
        Seq::new((self.next() - 1) as nat, |i: int| self@[(i + 1) as u32])
    }

    /// Every key lies in `1 .. next()` and names an item that carries it.
    pub proof fn lemma_keys(&self)
        requires
            self.wf(),
        ensures
            1 <= self.next(),
            forall|k: u32| #[trigger] self@.contains_key(k) <==> 1 <= k < self.next(),
            forall|k: u32| #[trigger] self@.contains_key(k) ==> self@[k].id_of() == k,
    {
    }

    /// An empty repository whose first identifier will be 1.
    pub fn new() -> (r: Self)
        ensures
            r.wf(),
            r@ == Map::<u32, T>::empty(),
            r.next() == 1,
    {
        Repository { items: HashMap::new(), next_id: 1 }
    }

    /// Gives `item` the next identifier, stores it under that key and
    /// returns the identifier.
    pub fn add(&mut self, item: T) -> (r: u32)
        requires
            old(self).wf(),
            old(self).next() < u32::MAX,
        ensures
            final(self).wf(),
            r == old(self).next(),
            final(self).next() == old(self).next() + 1,
            final(self)@.dom() == old(self)@.dom().insert(r),
            final(self)@.remove(r) == old(self)@,
            final(self)@[r].id_of() == r,
    {
        let mut item = item;
        let id = self.next_id;
        item.set_id(id);
        self.items.insert(id, item);
        self.next_id = id + 1;
        proof {
            assert(self@.remove(id) =~= old(self)@);
        }
        id
    }

    /// The item stored under `id`, if any.
    pub fn get(&self, id: u32) -> (r: Option<&T>)
        ensures
            r.is_some() == self@.contains_key(id),
            r.is_some() ==> *r.unwrap() == self@[id],
    {
        self.items.get(&id)
    }

    /// Every item, in the order of their identifiers.
    pub fn get_all(&self) -> (r: Vec<&T>)
        requires
            self.wf(),
        ensures
            r@.map_values(|t: &T| *t) == self.listing(),
            r@.len() == self.listing().len(),
    {
        let mut out: Vec<&T> = Vec::new();
        let mut id: u32 = 1;
        while id < self.next_id
            invariant
                self.wf(),
                1 <= id <= self.next_id,
                out@.len() == id - 1,
                forall|i: int| 0 <= i < out@.len() ==> *#[trigger] out@[i] == self@[(i + 1) as u32],
            decreases self.next_id - id,
        {
            match self.items.get(&id) {
                Some(t) => {
                    out.push(t);
                },
                None => {
                    // every identifier below the counter is held
                    assert(false);
                },
            }
            id = id + 1;
        }
        assert(out@.map_values(|t: &T| *t) =~= self.listing());
        out
    }
}

} // verus!

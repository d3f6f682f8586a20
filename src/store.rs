use std::collections::HashMap;
use vstd::prelude::*;
use vstd::std_specs::hash::spec_hash_map_iter;
use vstd::std_specs::iter::IteratorSpec;

verus! {

broadcast use vstd::std_specs::hash::group_hash_axioms;

/// The entries of `v` with each text seen as its characters.
pub open spec fn entries_view(v: Seq<(u64, String)>) -> Seq<(u64, Seq<char>)> {
    v.map_values(|e: (u64, String)| (e.0, e.1@))
}

/// `entries` lists every item of `items` exactly once, in some order.
pub open spec fn is_listing(entries: Seq<(u64, Seq<char>)>, items: Map<u64, Seq<char>>) -> bool {
    &&& forall|i: int, j: int|
        0 <= i < entries.len() && 0 <= j < entries.len() && i != j ==> entries[i].0 != entries[j].0
    &&& forall|i: int|
        0 <= i < entries.len() ==> #[trigger] items.contains_key(entries[i].0) && items[entries[i].0]
            == entries[i].1
    &&& forall|id: u64| #[trigger]
        items.contains_key(id) ==> exists|i: int| 0 <= i < entries.len() && entries[i].0 == id
}

/// The texts of `m` as character sequences.
pub open spec fn text_map(m: Map<u64, String>) -> Map<u64, Seq<char>> {
    Map::new(|id: u64| m.contains_key(id), |id: u64| m[id]@)
}

/// Every entry of `todos` once, as `(id, text)`, in the map's own order.
pub fn entries_of(todos: &HashMap<u64, String>) -> (r: Vec<(u64, String)>)
    ensures
        is_listing(entries_view(r@), text_map(todos@)),
{
    let mut r: Vec<(u64, String)> = Vec::new();
    for e in it: todos.iter()
        invariant
            it.seq() == spec_hash_map_iter(todos).remaining(),
            r.len() == it.index(),
            forall|i: int|
                #![trigger r@[i]]
                0 <= i < r.len() ==> r@[i].0 == *it.seq()[i].0 && r@[i].1@ == (*it.seq()[i].1)@,
    {
        let (k, v) = e;
        r.push((*k, v.clone()));
    }
    proof {
        let seq = spec_hash_map_iter(todos).remaining();
        let ev = entries_view(r@);
        assert forall|i: int, j: int|
            0 <= i < ev.len() && 0 <= j < ev.len() && i != j implies ev[i].0 != ev[j].0 by {
            assert(r@[i].0 == *seq[i].0 && r@[j].0 == *seq[j].0);
            if ev[i].0 == ev[j].0 {
                assert(todos@.contains_key(*seq[i].0) && todos@[*seq[i].0] == *seq[i].1);
                assert(todos@.contains_key(*seq[j].0) && todos@[*seq[j].0] == *seq[j].1);
                assert(seq[i] == seq[j]);
            }
        }
        assert forall|id: u64| #[trigger]
            text_map(todos@).contains_key(id) implies exists|i: int|
                0 <= i < ev.len() && ev[i].0 == id by {
            assert(todos@.contains_key(id));
            assert(seq.contains((&id, &todos@[id])));
            let i = choose|i: int| 0 <= i < seq.len() && seq[i] == (&id, &todos@[id]);
            assert(r@[i].0 == *seq[i].0);
            assert(ev[i].0 == id);
        }
    }
    r
}

/// A change to a store, as the model sees it.
pub enum StoreOp {
    Insert(Seq<char>),
    Remove(u64),
}

/// The todos and the next id after `op`, from the todos and next id `s`.
pub open spec fn apply(s: (Map<u64, Seq<char>>, nat), op: StoreOp) -> (Map<u64, Seq<char>>, nat) {
    match op {
        StoreOp::Insert(t) => (s.0.insert(s.1 as u64, t), s.1 + 1),
        StoreOp::Remove(id) => (s.0.remove(id), s.1),
    }
}

/// The todos, keyed by id, together with the id the next insertion receives.
pub struct TodoStore {
    todos: HashMap<u64, String>,
    next_id: u64,
}

impl TodoStore {
    /// The text of each todo, by id.
    pub closed spec fn items(&self) -> Map<u64, Seq<char>> {
        text_map(self.todos@)
    }

    /// The id that the next insertion assigns.
    pub closed spec fn next(&self) -> u64 {
        self.next_id
    }

    /// The todos and the next id.
    pub open spec fn model(&self) -> (Map<u64, Seq<char>>, nat) {
        (self.items(), self.next() as nat)
    }

    /// Ids start at 1 and every stored id lies below the next one.
    pub closed spec fn wf(&self) -> bool {
        &&& self.next_id >= 1
        &&& forall|id: u64| #[trigger] self.todos@.contains_key(id) ==> 1 <= id < self.next_id
    }

    /// An empty store whose first id is 1.
    pub fn new() -> (r: TodoStore)
        ensures
            r.wf(),
            r.items() == Map::<u64, Seq<char>>::empty(),
            r.next() == 1,
    {
        let r = TodoStore { todos: HashMap::new(), next_id: 1 };
        assert(r.items() =~= Map::<u64, Seq<char>>::empty());
        r
    }

    /// The id that the next insertion assigns.
    pub fn next_id(&self) -> (r: u64)
        ensures
            r == self.next(),
    {
        self.next_id
    }

    /// Stores `text` under a fresh id and returns that id.
    pub fn insert(&mut self, text: String) -> (id: u64)
        requires
            old(self).wf(),
            old(self).next() < u64::MAX,
        ensures
            final(self).wf(),
            id == old(self).next(),
            !old(self).items().contains_key(id),
            final(self).items() == old(self).items().insert(id, text@),
            final(self).next() == id + 1,
            final(self).model() == apply(old(self).model(), StoreOp::Insert(text@)),
    {
        let id = self.next_id;
        self.todos.insert(id, text);
        self.next_id = id + 1;
        assert(self.items() =~= old(self).items().insert(id, text@));
        id
    }

    /// Every current entry once, as `(id, text)`, in the map's own order.
    pub fn snapshot(&self) -> (r: Vec<(u64, String)>)
        requires
            self.wf(),
        ensures
            is_listing(entries_view(r@), self.items()),
    {
        entries_of(&self.todos)
    }

    /// Deletes the todo with id `id`; an absent id leaves the store as it was.
    pub fn remove(&mut self, id: u64)
        requires
            old(self).wf(),
        ensures
            final(self).wf(),
            final(self).items() == old(self).items().remove(id),
            final(self).next() == old(self).next(),
            !old(self).items().contains_key(id) ==> final(self).items() == old(self).items(),
            final(self).model() == apply(old(self).model(), StoreOp::Remove(id)),
    {
        self.todos.remove(&id);
        assert(self.items() =~= old(self).items().remove(id));
        assert(!old(self).items().contains_key(id) ==> old(self).items().remove(id)
            =~= old(self).items());
    }
}

} // verus!

use vstd::prelude::*;
use vstd::string::*;

use crate::event::Event;
use crate::field::same_text;
use crate::parser::default_type;

verus! {

/// Whether entry `i` is the first of type `t`.
pub open spec fn first_of<L>(entries: Seq<(Seq<char>, Seq<L>)>, t: Seq<char>, i: int) -> bool {
    &&& 0 <= i < entries.len()
    &&& entries[i].0 == t
    &&& forall|j: int| 0 <= j < i ==> entries[j].0 != t
}

/// The listeners of a type in a list of `(type, listeners)` entries: those of
/// the first entry with that type, or none if there is no such entry.
pub open spec fn lookup<L>(entries: Seq<(Seq<char>, Seq<L>)>, t: Seq<char>) -> Seq<L> {
    if exists|i: int| first_of(entries, t, i) {
        entries[choose|i: int| first_of(entries, t, i)].1
    } else {
        Seq::empty()
    }
}

/// No two entries have the same type.
pub open spec fn types_unique<L>(entries: Seq<(Seq<char>, Seq<L>)>) -> bool {
    forall|i: int, j: int|
        0 <= i < entries.len() && 0 <= j < entries.len() && i != j ==> entries[i].0
            != entries[j].0
}

/// Who listens to what: for each event type, its listeners in the order they
/// were added, and apart from them the listeners of the open transition.
/// Listeners are only ever added.
pub struct ListenerRegistry<L, O> {
    by_type: Vec<(String, Vec<L>)>,
    open: Vec<O>,
}

impl<L, O> ListenerRegistry<L, O> {
    /// The entries, one per event type that has listeners.
    pub closed spec fn entries(&self) -> Seq<(Seq<char>, Seq<L>)> {
        self.by_type@.map_values(|e: (String, Vec<L>)| (e.0@, e.1@))
    }

    /// Each event type has at most one entry.
    pub open spec fn wf(&self) -> bool {
        types_unique(self.entries())
    }

    /// The listeners of event type `t`, in the order they were added.
    pub open spec fn listeners_of(&self, t: Seq<char>) -> Seq<L> {
        lookup(self.entries(), t)
    }

    /// The listeners of the open transition, in the order they were added.
    pub closed spec fn open_listeners(&self) -> Seq<O> {
        self.open@
    }

    /// A registry with no listeners at all.
    pub fn new() -> (r: ListenerRegistry<L, O>)
        ensures
            forall|t: Seq<char>| r.listeners_of(t) == Seq::<L>::empty(),
            r.open_listeners() == Seq::<O>::empty(),
            r.wf(),
    {
        let r = ListenerRegistry { by_type: Vec::new(), open: Vec::new() };
        assert(r.entries() =~= Seq::empty());
        r
    }

    /// Where the entry of type `t` stands, if there is one.
    fn position(&self, t: &str) -> (r: Option<usize>)
        ensures
            match r {
                Some(i) => first_of(self.entries(), t@, i as int),
                None => forall|j: int| 0 <= j < self.entries().len() ==> self.entries()[j].0 != t@,
            },
    {
        let n = self.by_type.len();
        let mut i: usize = 0;
        while i < n
            invariant
                n == self.by_type@.len(),
                0 <= i <= n,
                forall|j: int| 0 <= j < i ==> self.entries()[j].0 != t@,
            decreases n - i,
        {
            if same_text(self.by_type[i].0.as_str(), t) {
                return Some(i);
            }
            i += 1;
        }
        None
    }

    /// Adds `listener` last among the listeners of `event_type`.
    pub fn add_event_listener(&mut self, event_type: &str, listener: L)
        ensures
            forall|t: Seq<char>|
                final(self).listeners_of(t) == if t == event_type@ {
                    old(self).listeners_of(t).push(listener)
                } else {
                    old(self).listeners_of(t)
                },
            final(self).open_listeners() == old(self).open_listeners(),
            old(self).wf() ==> final(self).wf(),
    {
        let ghost before = self.entries();
        match self.position(event_type) {
            Some(i) => {
                let (name, mut listeners) = self.by_type.remove(i);
                listeners.push(listener);
                self.by_type.insert(i, (name, listeners));
                proof {
                    let after = self.entries();
                    assert(after =~= before.update(i as int, (before[i as int].0, before[i as int].1.push(listener))));
                    assert(forall|j: int| 0 <= j < before.len() ==> after[j].0 == before[j].0);
                    assert forall|t: Seq<char>|
                        lookup(after, t) == if t == event_type@ {
                            lookup(before, t).push(listener)
                        } else {
                            lookup(before, t)
                        } by {
                        if exists|k: int| first_of(after, t, k) {
                            let k = choose|k: int| first_of(after, t, k);
                            assert(first_of(before, t, k));
                            let m = choose|m: int| first_of(before, t, m);
                            assert(m == k);
                        } else if exists|m: int| first_of(before, t, m) {
                            let m = choose|m: int| first_of(before, t, m);
                            assert(first_of(after, t, m));
                        }
                    }
                }
            },
            None => {
                let mut listeners = Vec::new();
                listeners.push(listener);
                self.by_type.push((String::from_str(event_type), listeners));
                proof {
                    let after = self.entries();
                    let added = (event_type@, seq![listener]);
                    assert(after =~= before.push(added));
                    assert(forall|j: int| 0 <= j < before.len() ==> after[j] == before[j]);
                    assert(seq![listener] =~= Seq::<L>::empty().push(listener));
                    assert forall|t: Seq<char>|
                        lookup(after, t) == if t == event_type@ {
                            lookup(before, t).push(listener)
                        } else {
                            lookup(before, t)
                        } by {
                        if t == event_type@ {
                            assert(first_of(after, t, before.len() as int));
                            let k = choose|k: int| first_of(after, t, k);
                            assert(k == before.len());
                            assert(!exists|m: int| first_of(before, t, m));
                        } else if exists|k: int| first_of(after, t, k) {
                            let k = choose|k: int| first_of(after, t, k);
                            assert(first_of(before, t, k));
                            let m = choose|m: int| first_of(before, t, m);
                            assert(m == k);
                        } else if exists|m: int| first_of(before, t, m) {
                            let m = choose|m: int| first_of(before, t, m);
                            assert(first_of(after, t, m));
                        }
                    }
                }
            },
        }
    }

    /// Adds `listener` last among the listeners of `message` events.
    pub fn on_message(&mut self, listener: L)
        ensures
            forall|t: Seq<char>|
                final(self).listeners_of(t) == if t == default_type() {
                    old(self).listeners_of(t).push(listener)
                } else {
                    old(self).listeners_of(t)
                },
            final(self).open_listeners() == old(self).open_listeners(),
            old(self).wf() ==> final(self).wf(),
    {
        self.add_event_listener("message", listener);
    }

    /// Adds `listener` last among the listeners of the open transition.
    pub fn on_open(&mut self, listener: O)
        ensures
            final(self).open_listeners() == old(self).open_listeners().push(listener),
            forall|t: Seq<char>| final(self).listeners_of(t) == old(self).listeners_of(t),
            final(self).wf() == old(self).wf(),
    {
        self.open.push(listener);
    }
}

/// The listeners that receive `event`: those of its type, in the order they were
/// added; `None` when its type has none, so that the event is dropped.
pub fn dispatch_event<'a, L, O>(listeners: &'a ListenerRegistry<L, O>, event: &Event) -> (r:
    Option<&'a Vec<L>>)
    ensures
        match r {
            Some(v) => v@ == listeners.listeners_of(event.type_@),
            None => listeners.listeners_of(event.type_@) == Seq::<L>::empty(),
        },
{
    match listeners.position(event.type_.as_str()) {
        Some(i) => {
            proof {
                let k = choose|k: int| first_of(listeners.entries(), event.type_@, k);
                assert(k == i);
            }
            let entry = &listeners.by_type[i];
            Some(&entry.1)
        },
        None => None,
    }
}

/// The listeners of the open transition, in the order they were added.
pub fn dispatch_open_event<'a, L, O>(listeners: &'a ListenerRegistry<L, O>) -> (r: &'a Vec<O>)
    ensures
        r@ == listeners.open_listeners(),
{
    &listeners.open
}

} // verus!

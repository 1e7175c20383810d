//! Tree-path addressing: a widget's current place in a window described as
//! a sequence of (child key, child id) pairs, plus the process-wide book
//! that maps a widget id to its current address without holding any
//! reference into the tree.

use vstd::prelude::*;

use crate::ids::RawWidgetId;

verus! {

broadcast use vstd::std_specs::hash::group_hash_axioms;

/// The path from a window's root to one widget: the window, then at each
/// level the child key under which the next widget is stored and that
/// widget's id.
#[derive(Debug)]
pub struct WidgetAddress {
    pub window_id: u64,
    pub path: Vec<(u64, RawWidgetId)>,
}

impl WidgetAddress {
    /// The address of a window's root widget: an empty path.
    pub fn window_root(window_id: u64) -> (r: WidgetAddress)
        ensures
            r.window_id == window_id,
            r.path@ =~= Seq::<(u64, RawWidgetId)>::empty(),
    {
        WidgetAddress { window_id, path: Vec::new() }
    }

    pub fn duplicate(&self) -> (r: WidgetAddress)
        ensures
            r.window_id == self.window_id,
            r.path@ =~= self.path@,
    {
        let mut path: Vec<(u64, RawWidgetId)> = Vec::new();
        let mut i: usize = 0;
        while i < self.path.len()
            invariant
                0 <= i <= self.path@.len(),
                path@ =~= self.path@.subrange(0, i as int),
            decreases self.path@.len() - i,
        {
            path.push(self.path[i]);
            i = i + 1;
        }
        assert(path@ =~= self.path@);
        WidgetAddress { window_id: self.window_id, path }
    }

    /// This address extended by one more (key, id) step.
    pub fn join(self, key: u64, id: RawWidgetId) -> (r: WidgetAddress)
        ensures
            r.window_id == self.window_id,
            r.path@ =~= self.path@.push((key, id)),
    {
        let mut this = self;
        this.path.push((key, id));
        this
    }

    pub fn len(&self) -> (r: usize)
        ensures
            r == self.path@.len(),
    {
        self.path.len()
    }

    /// The (key, id) pair `index` steps below the window root, if the
    /// path is that deep.
    pub fn item_at(&self, index: usize) -> (r: Option<(u64, RawWidgetId)>)
        ensures
            index < self.path@.len() ==> r == Some(self.path@[index as int]),
            index >= self.path@.len() ==> r.is_none(),
    {
        if index < self.path.len() {
            Some(self.path[index])
        } else {
            None
        }
    }

    pub open spec fn spec_starts_with(self, base: WidgetAddress) -> bool {
        &&& self.window_id == base.window_id
        &&& base.path@.len() <= self.path@.len()
        &&& base.path@ =~= self.path@.subrange(0, base.path@.len() as int)
    }

    /// True iff `self` and `base` share the window root and `self`'s path
    /// extends `base`'s path; every widget's address starts with the
    /// address of each of its ancestors and with its own.
    pub fn starts_with(&self, base: &WidgetAddress) -> (r: bool)
        ensures
            r == self.spec_starts_with(*base),
    {
        if self.window_id != base.window_id {
            return false;
        }
        if base.path.len() > self.path.len() {
            return false;
        }
        let mut i: usize = 0;
        while i < base.path.len()
            invariant
                0 <= i <= base.path@.len(),
                base.path@.len() <= self.path@.len(),
                forall|j: int| 0 <= j < i ==> base.path@[j] == self.path@[j],
            decreases base.path@.len() - i,
        {
            let (bk, bid) = base.path[i];
            let (sk, sid) = self.path[i];
            if bk != sk || bid.0 != sid.0 {
                return false;
            }
            i = i + 1;
        }
        assert(base.path@ =~= self.path@.subrange(0, base.path@.len() as int));
        true
    }
}

/// Process-wide weak mapping from widget id to current address. An entry
/// exists exactly while the widget is mounted; looking up a missing id
/// means "widget no longer exists" and is not an error.
pub struct AddressBook {
    pub map: std::collections::HashMap<u64, WidgetAddress>,
}

impl AddressBook {
    pub open spec fn view(self) -> Map<u64, WidgetAddress> {
        self.map@
    }

    pub fn new() -> (r: AddressBook)
        ensures
            r@ =~= Map::<u64, WidgetAddress>::empty(),
    {
        AddressBook { map: std::collections::HashMap::new() }
    }

    /// Record `address` as the current place of `id`. Registering over a
    /// live entry is a logic error in the caller; the entry is
    /// overwritten and the old address returned so the caller can report
    /// it.
    pub fn register(&mut self, id: RawWidgetId, address: WidgetAddress) -> (r: Option<
        WidgetAddress,
    >)
        ensures
            final(self)@ =~= old(self)@.insert(id.0, address),
            r.is_some() <==> old(self)@.contains_key(id.0),
            r.is_some() ==> r == Some(old(self)@[id.0]),
    {
        self.map.insert(id.0, address)
    }

    /// Drop the entry for `id`, returning the address it had. Removing a
    /// missing entry is allowed and returns `None`.
    pub fn unregister(&mut self, id: RawWidgetId) -> (r: Option<WidgetAddress>)
        ensures
            final(self)@ =~= old(self)@.remove(id.0),
            r.is_some() <==> old(self)@.contains_key(id.0),
            r.is_some() ==> r == Some(old(self)@[id.0]),
    {
        self.map.remove(&id.0)
    }

    /// The current address of `id`, if the widget is mounted anywhere.
    pub fn lookup(&self, id: RawWidgetId) -> (r: Option<&WidgetAddress>)
        ensures
            self@.contains_key(id.0) <==> r.is_some(),
            r.is_some() ==> r == Some(&self@[id.0]),
    {
        self.map.get(&id.0)
    }
}

} // verus!

//! The audio listeners: which of them is the main one. A listener's
//! position and orientation are floating point and kept beside this list,
//! in the same order; here a listener is its main-listener mark.
use vstd::prelude::*;

verus! {

/// The listeners' main-listener marks, in the order they were added, and
/// the position recorded as the main listener's.
pub struct ListenerManager {
    listeners: Vec<bool>,
    main_listener_index: Option<usize>,
}

/// Every mark cleared.
pub open spec fn all_cleared(marks: Seq<bool>) -> Seq<bool> {
    Seq::new(marks.len(), |i: int| false)
}

/// Only the mark at `index` set.
pub open spec fn only_marked(len: nat, index: int) -> Seq<bool> {
    Seq::new(len, |i: int| i == index)
}

impl ListenerManager {
    /// The marks, in order.
    pub closed spec fn marks(&self) -> Seq<bool> {
        self.listeners@
    }

    /// The position recorded as the main listener's, if any.
    pub closed spec fn main_index(&self) -> Option<usize> {
        self.main_listener_index
    }

    /// No listeners.
    pub fn new() -> (r: ListenerManager)
        ensures
            r.marks() == Seq::<bool>::empty(),
            r.main_index() is None,
    {
        ListenerManager { listeners: Vec::new(), main_listener_index: None }
    }

    /// Clears every mark.
    fn clear_marks(&mut self)
        ensures
            final(self).marks() == all_cleared(old(self).marks()),
            final(self).main_index() == old(self).main_index(),
    {
        let mut i: usize = 0;
        while i < self.listeners.len()
            invariant
                i <= self.listeners@.len(),
                self.listeners@.len() == old(self).listeners@.len(),
                self.main_listener_index == old(self).main_listener_index,
                forall|j: int| 0 <= j < i ==> !#[trigger] self.listeners@[j],
            decreases self.listeners@.len() - i,
        {
            self.listeners.set(i, false);
            i = i + 1;
        }
        proof {
            assert(self.listeners@ =~= all_cleared(old(self).listeners@));
        }
    }

    /// Adds a listener, the main one if `is_main` (the others then lose
    /// their mark), and returns its position.
    pub fn add_listener(&mut self, is_main: bool) -> (r: usize)
        ensures
            r == old(self).marks().len(),
            is_main ==> final(self).marks() == all_cleared(old(self).marks()).push(true)
                && final(self).main_index() == Some(r),
            !is_main ==> final(self).marks() == old(self).marks().push(false)
                && final(self).main_index() == old(self).main_index(),
    {
        let index = self.listeners.len();
        if is_main {
            self.clear_marks();
            self.main_listener_index = Some(index);
        }
        self.listeners.push(is_main);
        index
    }

    /// The position of the main listener, if the one recorded exists.
    pub fn main_listener(&self) -> (r: Option<usize>)
        ensures
            r == match self.main_index() {
                Some(i) => if i < self.marks().len() { Some(i) } else { None },
                None => None,
            },
    {
        match self.main_listener_index {
            Some(i) => if i < self.listeners.len() { Some(i) } else { None },
            None => None,
        }
    }

    /// Makes the listener at `index` the main one, if there is one there;
    /// whether there was.
    pub fn set_main_listener(&mut self, index: usize) -> (r: bool)
        ensures
            r == (index < old(self).marks().len()),
            r ==> final(self).marks() == only_marked(old(self).marks().len(), index as int)
                && final(self).main_index() == Some(index),
            !r ==> final(self).marks() == old(self).marks() && final(self).main_index() == old(self).main_index(),
    {
        if index < self.listeners.len() {
            self.clear_marks();
            self.listeners.set(index, true);
            self.main_listener_index = Some(index);
            proof {
                assert(self.listeners@ =~= only_marked(old(self).listeners@.len(), index as int));
            }
            true
        } else {
            false
        }
    }

    /// The marks, in order.
    pub fn listeners(&self) -> (r: &Vec<bool>)
        ensures
            r@ == self.marks(),
    {
        &self.listeners
    }

    /// Removes the listener at `index` and returns its mark. If it was the
    /// one recorded as main, the first remaining listener (if any) becomes
    /// the main one; otherwise the recorded position stays as it was.
    pub fn remove_listener(&mut self, index: usize) -> (r: Option<bool>)
        ensures
            index >= old(self).marks().len() ==> r is None && final(self).marks() == old(self).marks()
                && final(self).main_index() == old(self).main_index(),
            index < old(self).marks().len() ==> {
                let rest = old(self).marks().remove(index as int);
                &&& r == Some(old(self).marks()[index as int])
                &&& if old(self).main_index() == Some(index) {
                    if rest.len() > 0 {
                        final(self).marks() == rest.update(0, true) && final(self).main_index() == Some(0usize)
                    } else {
                        final(self).marks() == rest && final(self).main_index() is None
                    }
                } else {
                    final(self).marks() == rest && final(self).main_index() == old(self).main_index()
                }
            },
    {
        if index < self.listeners.len() {
            let removed = self.listeners.remove(index);
            if self.main_listener_index == Some(index) {
                self.main_listener_index = None;
                if self.listeners.len() > 0 {
                    self.listeners.set(0, true);
                    self.main_listener_index = Some(0);
                }
            }
            Some(removed)
        } else {
            None
        }
    }

    /// Removes every listener.
    pub fn clear(&mut self)
        ensures
            final(self).marks() == Seq::<bool>::empty(),
            final(self).main_index() is None,
    {
        self.listeners.clear();
        self.main_listener_index = None;
    }

    /// The number of listeners.
    pub fn count(&self) -> (r: usize)
        ensures
            r == self.marks().len(),
    {
        self.listeners.len()
    }
}

impl Default for ListenerManager {
    /// One listener, the main one.
    fn default() -> (r: ListenerManager)
        ensures
            r.marks() == seq![true],
            r.main_index() == Some(0usize),
    {
        let mut manager = ListenerManager::new();
        manager.add_listener(true);
        proof {
            assert(all_cleared(Seq::<bool>::empty()).push(true) =~= seq![true]);
        }
        manager
    }
}

/// After choosing a main listener, it is the only one marked and the one found as main.
pub proof fn lemma_set_main_is_unique(before: ListenerManager, after: ListenerManager, index: usize)
    requires
        index < before.marks().len(),
        after.marks() == only_marked(before.marks().len(), index as int),
        after.main_index() == Some(index),
    ensures
        forall|i: int| 0 <= i < after.marks().len() ==> (#[trigger] after.marks()[i] <==> i == index),
        index < after.marks().len(),
{
}

} // verus!

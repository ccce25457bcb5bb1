//! Finding entities by their components. The world's storages are read by
//! the caller; the search runs over the components it hands in.
use vstd::prelude::*;
use crate::collections::owned;
use crate::ecs::component::{Name, Tag};

verus! {

/// Ready-made game objects; building them needs the world.
pub struct Prefabs;

/// Searches over components.
pub struct EntityQuery;

impl EntityQuery {
    /// The position of the first name equal to `name`.
    pub fn find_by_name(names: &[Name], name: &str) -> (r: Option<usize>)
        ensures
            match r {
                Some(i) => i < names@.len() && names@[i as int].name@ == name@
                    && forall|j: int| 0 <= j < i ==> (#[trigger] names@[j]).name@ != name@,
                None => forall|j: int| 0 <= j < names@.len() ==> (#[trigger] names@[j]).name@ != name@,
            },
    {
        let key = owned(name);
        let mut i: usize = 0;
        while i < names.len()
            invariant
                i <= names@.len(),
                key@ == name@,
                forall|j: int| 0 <= j < i ==> (#[trigger] names@[j]).name@ != name@,
            decreases names@.len() - i,
        {
            if names[i].name == key {
                return Some(i);
            }
            i = i + 1;
        }
        None
    }

    /// The positions of the tag lists that hold `tag`, in order.
    pub fn find_by_tag(tags: &[Tag], tag: &str) -> (r: Vec<usize>)
        ensures
            forall|a: int, b: int| 0 <= a < b < r@.len() ==> r@[a] < r@[b],
            forall|a: int| 0 <= a < r@.len() ==> #[trigger] r@[a] < tags@.len(),
            forall|i: int| 0 <= i < tags@.len() ==> (r@.contains(i as usize)
                <==> (#[trigger] tags@[i]).tag_seq().contains(tag@)),
    {
        let mut r: Vec<usize> = Vec::new();
        let mut i: usize = 0;
        while i < tags.len()
            invariant
                i <= tags@.len(),
                forall|a: int, b: int| 0 <= a < b < r@.len() ==> r@[a] < r@[b],
                forall|a: int| 0 <= a < r@.len() ==> #[trigger] r@[a] < i,
                forall|j: int| 0 <= j < i ==> (r@.contains(j as usize)
                    <==> (#[trigger] tags@[j]).tag_seq().contains(tag@)),
            decreases tags@.len() - i,
        {
            let ghost r0 = r@;
            if tags[i].has_tag(tag) {
                r.push(i);
            }
            proof {
                assert forall|j: int| 0 <= j < i + 1 implies (r@.contains(j as usize)
                    <==> (#[trigger] tags@[j]).tag_seq().contains(tag@)) by {
                    if j < i {
                        if r@.contains(j as usize) {
                            let a = choose|a: int| 0 <= a < r@.len() && r@[a] == j as usize;
                            if a < r0.len() {
                                assert(r0[a] == j as usize);
                            } else {
                                assert(r@[a] == i);
                            }
                        }
                        if r0.contains(j as usize) {
                            let a = choose|a: int| 0 <= a < r0.len() && r0[a] == j as usize;
                            assert(r@[a] == j as usize);
                        }
                    } else {
                        if r@.contains(j as usize) {
                            let a = choose|a: int| 0 <= a < r@.len() && r@[a] == j as usize;
                            if a < r0.len() {
                                assert(r0[a] < i);
                            }
                        }
                        if tags@[j].tag_seq().contains(tag@) {
                            assert(r@[r0.len() as int] == i);
                        }
                    }
                }
            }
            i = i + 1;
        }
        r
    }
}

} // verus!

//! The systems of the world. Their per-frame work runs over the world's
//! component storages; the decisions they make stand here.
use vstd::prelude::*;
use crate::ecs::component::Tag;

verus! {

/// Updates the transforms' matrices.
pub struct TransformSystem;

impl TransformSystem {
    pub fn new() -> (r: TransformSystem) {
        TransformSystem
    }
}

/// Collects what to draw.
pub struct RenderSystem;

impl RenderSystem {
    pub fn new() -> (r: RenderSystem) {
        RenderSystem
    }
}

/// Follows the cameras' transforms.
pub struct CameraSystem;

impl CameraSystem {
    pub fn new() -> (r: CameraSystem) {
        CameraSystem
    }
}

/// Removes the entities tagged `destroy`.
pub struct LifecycleSystem;

impl LifecycleSystem {
    pub fn new() -> (r: LifecycleSystem) {
        LifecycleSystem
    }

    /// The positions of the tag lists that hold `destroy`, in order.
    pub fn entities_to_destroy(&self, tags: &[Tag]) -> (r: Vec<usize>)
        ensures
            forall|a: int, b: int| 0 <= a < b < r@.len() ==> r@[a] < r@[b],
            forall|i: int| 0 <= i < tags@.len() ==> (r@.contains(i as usize)
                <==> (#[trigger] tags@[i]).tag_seq().contains("destroy"@)),
            forall|a: int| 0 <= a < r@.len() ==> #[trigger] r@[a] < tags@.len(),
    {
        let mut r: Vec<usize> = Vec::new();
        let mut i: usize = 0;
        while i < tags.len()
            invariant
                i <= tags@.len(),
                forall|a: int, b: int| 0 <= a < b < r@.len() ==> r@[a] < r@[b],
                forall|a: int| 0 <= a < r@.len() ==> #[trigger] r@[a] < i,
                forall|j: int| 0 <= j < i ==> (r@.contains(j as usize)
                    <==> (#[trigger] tags@[j]).tag_seq().contains("destroy"@)),
            decreases tags@.len() - i,
        {
            let ghost r0 = r@;
            if tags[i].has_tag("destroy") {
                r.push(i);
            }
            proof {
                assert forall|j: int| 0 <= j < i + 1 implies (r@.contains(j as usize)
                    <==> (#[trigger] tags@[j]).tag_seq().contains("destroy"@)) by {
                    if j < i {
                        if r@.contains(j as usize) {
                            let a = choose|a: int| 0 <= a < r@.len() && r@[a] == j as usize;
                            if a < r0.len() {
                                assert(r0[a] == j as usize);
                            } else {
                                assert(r@[a] == i);
                            }
                        }
                        if r0.contains(j as usize) {
                            let a = choose|a: int| 0 <= a < r0.len() && r0[a] == j as usize;
                            assert(r@[a] == j as usize);
                        }
                    } else {
                        if r@.contains(j as usize) {
                            let a = choose|a: int| 0 <= a < r@.len() && r@[a] == j as usize;
                            if a < r0.len() {
                                assert(r0[a] < i);
                            }
                        }
                        if tags@[j].tag_seq().contains("destroy"@) {
                            assert(r@[r0.len() as int] == i);
                        }
                    }
                }
            }
            i = i + 1;
        }
        r
    }
}

} // verus!

//! The bone hierarchy of a skeleton: names, parents, children and roots.
//! The bones' poses and matrices are floating point and kept beside it.
use vstd::prelude::*;
use vstd::string::StringExecFns;
use crate::collections::{owned, StrMap};
use crate::engine_core::logging::{decimal, decimal_string_u64};
use crate::EngineError;

verus! {

/// A bone: its name, its parent and its children, by position.
pub struct Bone {
    pub name: String,
    pub parent: Option<usize>,
    pub children: Vec<usize>,
}

/// The bones of a skeleton, in the order they were added.
pub struct Skeleton {
    pub bones: Vec<Bone>,
    pub bone_name_to_index: StrMap<usize>,
    pub root_bones: Vec<usize>,
}

/// The first problem of the bones `bs` of a skeleton of `n` bones: a
/// parent or child position past the end, in bone order and, within a bone, the parent first.
pub open spec fn first_problem(bs: Seq<Bone>, n: int) -> Option<(int, bool, int)>
    decreases bs.len(),
{
    if bs.len() == 0 {
        None
    } else {
        match first_problem(bs.drop_last(), n) {
            Some(p) => Some(p),
            None => bone_problem(bs.last(), bs.len() - 1, n),
        }
    }
}

/// The problem of bone `b` at position `i` among `n` bones: its parent if
/// that is past the end (`true`), else its first child past the end (`false`).
pub open spec fn bone_problem(b: Bone, i: int, n: int) -> Option<(int, bool, int)> {
    match b.parent {
        Some(p) if p >= n => Some((i, true, p as int)),
        _ => match first_bad_child(b.children@, n) {
            Some(c) => Some((i, false, c)),
            None => None,
        },
    }
}

/// The first position of `cs` past `n`, if any.
pub open spec fn first_bad_child(cs: Seq<usize>, n: int) -> Option<int>
    decreases cs.len(),
{
    if cs.len() == 0 {
        None
    } else {
        match first_bad_child(cs.drop_last(), n) {
            Some(c) => Some(c),
            None => if cs.last() >= n { Some(cs.last() as int) } else { None },
        }
    }
}

impl Skeleton {
    /// No bones.
    pub fn new() -> (r: Skeleton)
        ensures
            r.bones@.len() == 0,
            r.bone_name_to_index.wf(),
            r.bone_name_to_index.view() == Map::<Seq<char>, usize>::empty(),
            r.root_bones@.len() == 0,
    {
        Skeleton { bones: Vec::new(), bone_name_to_index: StrMap::new(), root_bones: Vec::new() }
    }

    /// Adds a bone named `name` under `parent` (a root if none) and returns
    /// its position. A parent that exists (the new bone itself included)
    /// lists it as a child; the name now finds the new bone.
    pub fn add_bone(&mut self, name: &str, parent: Option<usize>) -> (r: usize)
        requires
            old(self).bone_name_to_index.wf(),
        ensures
            final(self).bone_name_to_index.wf(),
            r == old(self).bones@.len(),
            final(self).bone_name_to_index.view() == old(self).bone_name_to_index.view().insert(name@, r),
            bone_added(*old(self), *final(self), name@, parent),
    {
        let index = self.bones.len();
        let bone = Bone { name: owned(name), parent, children: Vec::new() };
        self.bones.push(bone);
        self.bone_name_to_index.insert(owned(name), index);
        match parent {
            Some(p) => {
                if p < self.bones.len() {
                    let mut b = self.bones.remove(p);
                    b.children.push(index);
                    self.bones.insert(p, b);
                }
            },
            None => {
                self.root_bones.push(index);
            },
        }
        index
    }

    /// The position of the bone last added under `name`.
    pub fn find_bone(&self, name: &str) -> (r: Option<usize>)
        requires
            self.bone_name_to_index.wf(),
        ensures
            r == (if self.bone_name_to_index.view().contains_key(name@) {
                Some(self.bone_name_to_index.view()[name@])
            } else {
                None
            }),
    {
        match self.bone_name_to_index.get(name) {
            Some(i) => Some(*i),
            None => None,
        }
    }

    /// The bone at `index`, if there is one.
    pub fn get_bone(&self, index: usize) -> (r: Option<&Bone>)
        ensures
            r == (if index < self.bones@.len() { Some(&self.bones@[index as int]) } else { None }),
    {
        if index < self.bones.len() {
            Some(&self.bones[index])
        } else {
            None
        }
    }

    /// The number of bones.
    pub fn bone_count(&self) -> (r: usize)
        ensures
            r == self.bones@.len(),
    {
        self.bones.len()
    }

    /// Checks that every parent and child position names a bone; the first
    /// that does not is an asset error naming the bone and the position.
    pub fn validate(&self) -> (r: Result<(), EngineError>)
        ensures
            match first_problem(self.bones@, self.bones@.len() as int) {
                None => r is Ok,
                Some((i, true, p)) => r matches Err(EngineError::AssetError(m))
                    && m@ == "Bone "@ + decimal(i as nat) + " has invalid parent index "@ + decimal(p as nat),
                Some((i, false, c)) => r matches Err(EngineError::AssetError(m))
                    && m@ == "Bone "@ + decimal(i as nat) + " has invalid child index "@ + decimal(c as nat),
            },
    {
        let n = self.bones.len();
        let mut i: usize = 0;
        while i < n
            invariant
                n == self.bones@.len(),
                i <= n,
                first_problem(self.bones@.take(i as int), n as int) is None,
                forall|j: int| 0 <= j < i ==> bone_problem(#[trigger] self.bones@[j], j, n as int) is None,
            decreases n - i,
        {
            let bone = &self.bones[i];
            match bone.parent {
                Some(p) => {
                    if p >= n {
                        proof {
                            lemma_first_problem_at(self.bones@, i as int, n as int);
                        }
                        let mut m = owned("Bone ");
                        m.append(decimal_string_u64(i as u64).as_str());
                        m.append(" has invalid parent index ");
                        m.append(decimal_string_u64(p as u64).as_str());
                        return Err(EngineError::AssetError(m));
                    }
                },
                None => {},
            }
            let mut k: usize = 0;
            while k < bone.children.len()
                invariant
                    k <= bone.children@.len(),
                    n == self.bones@.len(),
                    i < n,
                    *bone == self.bones@[i as int],
                    first_problem(self.bones@.take(i as int), n as int) is None,
                    match bone.parent { Some(p) => p < n, None => true },
                    first_bad_child(bone.children@.take(k as int), n as int) is None,
                decreases bone.children@.len() - k,
            {
                let c = bone.children[k];
                proof {
                    assert(bone.children@.take(k + 1).drop_last() =~= bone.children@.take(k as int));
                }
                if c >= n {
                    proof {
                        lemma_first_bad_child_at(bone.children@, n as int, k as int);
                        lemma_first_problem_at(self.bones@, i as int, n as int);
                    }
                    let mut m = owned("Bone ");
                    m.append(decimal_string_u64(i as u64).as_str());
                    m.append(" has invalid child index ");
                    m.append(decimal_string_u64(c as u64).as_str());
                    return Err(EngineError::AssetError(m));
                }
                k = k + 1;
            }
            proof {
                assert(bone.children@.take(k as int) =~= bone.children@);
                assert(self.bones@.take(i + 1).drop_last() =~= self.bones@.take(i as int));
                assert(bone_problem(self.bones@[i as int], i as int, n as int) is None);
            }
            i = i + 1;
        }
        proof {
            assert(self.bones@.take(n as int) =~= self.bones@);
        }
        Ok(())
    }
}

/// The first problem is in the first bone that has one.
proof fn lemma_first_problem_at(bs: Seq<Bone>, i: int, n: int)
    requires
        0 <= i < bs.len(),
        first_problem(bs.take(i), n) is None,
        bone_problem(bs[i], i, n) is Some,
    ensures
        first_problem(bs, n) == bone_problem(bs[i], i, n),
    decreases bs.len(),
{
    if i + 1 < bs.len() {
        assert(bs.drop_last().take(i) =~= bs.take(i));
        lemma_first_problem_at(bs.drop_last(), i, n);
    } else {
        assert(bs.drop_last() =~= bs.take(i));
    }
}

/// The first bad child is the first past the end.
proof fn lemma_first_bad_child_at(cs: Seq<usize>, n: int, k: int)
    requires
        0 <= k < cs.len(),
        first_bad_child(cs.take(k), n) is None,
        cs[k] >= n,
    ensures
        first_bad_child(cs, n) == Some(cs[k] as int),
    decreases cs.len(),
{
    assert(cs.take(k + 1).drop_last() =~= cs.take(k));
    if k + 1 < cs.len() {
        assert(cs.drop_last().take(k) =~= cs.take(k));
        lemma_first_bad_child_at(cs.drop_last(), n, k);
    } else {
        assert(cs.take(k + 1) =~= cs);
    }
}

/// `after` is `before` with one more bone, named `name`, under `parent`:
/// it comes last, a parent that exists (the new bone itself included)
/// lists it as its last child, a bone with no parent is a new root, and no
/// other bone changes.
pub open spec fn bone_added(before: Skeleton, after: Skeleton, name: Seq<char>, parent: Option<usize>) -> bool {
    let r = before.bones@.len();
    &&& after.bones@.len() == r + 1
    &&& after.bones@[r as int].name@ == name
    &&& after.bones@[r as int].parent == parent
    &&& match parent {
        Some(p) => {
            &&& after.root_bones@ == before.root_bones@
            &&& forall|i: int| 0 <= i < r && i != p
                ==> #[trigger] after.bones@[i] == before.bones@[i]
            &&& p < r ==> after.bones@[p as int].children@ == before.bones@[p as int].children@.push(r as usize)
                && after.bones@[p as int].name == before.bones@[p as int].name
                && after.bones@[p as int].parent == before.bones@[p as int].parent
            &&& p == r ==> after.bones@[r as int].children@ == seq![r as usize]
            &&& p != r ==> after.bones@[r as int].children@.len() == 0
        },
        None => {
            &&& after.root_bones@ == before.root_bones@.push(r as usize)
            &&& forall|i: int| 0 <= i < r ==> #[trigger] after.bones@[i] == before.bones@[i]
            &&& after.bones@[r as int].children@.len() == 0
        },
    }
}

/// Adding a bone to a valid skeleton, as a root or under a bone that
/// exists or under itself, leaves it valid.
pub proof fn lemma_add_bone_keeps_valid(before: Skeleton, after: Skeleton, name: Seq<char>, parent: Option<usize>)
    requires
        first_problem(before.bones@, before.bones@.len() as int) is None,
        bone_added(before, after, name, parent),
        parent matches Some(p) ==> p <= before.bones@.len(),
        after.bones@.len() <= usize::MAX,
    ensures
        first_problem(after.bones@, after.bones@.len() as int) is None,
{
    let b0 = before.bones@;
    let b1 = after.bones@;
    let n0 = b0.len() as int;
    let n1 = b1.len() as int;
    lemma_first_problem_none(b0, n0);
    lemma_first_problem_none(b1, n1);
    assert forall|j: int| 0 <= j < n1 implies bone_problem(#[trigger] b1[j], j, n1) is None by {
        let b = b1[j];
        lemma_first_bad_child_none(b.children@, n1);
        if j < n0 {
            let a = b0[j];
            assert(bone_problem(a, j, n0) is None);
            lemma_first_bad_child_none(a.children@, n0);
            if parent matches Some(p) && p == j {
                assert(b.children@ == a.children@.push(n0 as usize));
                assert forall|k: int| 0 <= k < b.children@.len() implies b.children@[k] < n1 by {
                    if k < a.children@.len() {
                        assert(b.children@[k] == a.children@[k]);
                    }
                }
            } else {
                assert(b == a);
            }
        } else {
            assert(j == n0);
        }
    }
}

/// No bone has a problem exactly when there is no first problem.
proof fn lemma_first_problem_none(bs: Seq<Bone>, n: int)
    ensures
        first_problem(bs, n) is None <==> forall|j: int| 0 <= j < bs.len() ==> bone_problem(#[trigger] bs[j], j, n) is None,
    decreases bs.len(),
{
    if bs.len() > 0 {
        let d = bs.drop_last();
        let last = bs.len() - 1;
        lemma_first_problem_none(d, n);
        if forall|j: int| 0 <= j < bs.len() ==> bone_problem(#[trigger] bs[j], j, n) is None {
            assert forall|j: int| 0 <= j < d.len() implies bone_problem(#[trigger] d[j], j, n) is None by {
                assert(d[j] == bs[j]);
            }
            assert(bone_problem(bs[last], last, n) is None);
        }
        if first_problem(bs, n) is None {
            assert forall|j: int| 0 <= j < bs.len() implies bone_problem(#[trigger] bs[j], j, n) is None by {
                if j < d.len() {
                    assert(d[j] == bs[j]);
                    assert(bone_problem(d[j], j, n) is None);
                }
            }
        }
    }
}

/// No child is past `n` exactly when there is no first bad child.
proof fn lemma_first_bad_child_none(cs: Seq<usize>, n: int)
    ensures
        first_bad_child(cs, n) is None <==> forall|j: int| 0 <= j < cs.len() ==> #[trigger] cs[j] < n,
    decreases cs.len(),
{
    if cs.len() > 0 {
        let d = cs.drop_last();
        lemma_first_bad_child_none(d, n);
        if forall|j: int| 0 <= j < cs.len() ==> #[trigger] cs[j] < n {
            assert forall|j: int| 0 <= j < d.len() implies #[trigger] d[j] < n by {
                assert(d[j] == cs[j]);
            }
            assert(cs[cs.len() - 1] < n);
        }
        if first_bad_child(cs, n) is None {
            assert forall|j: int| 0 <= j < cs.len() implies #[trigger] cs[j] < n by {
                if j < d.len() {
                    assert(d[j] == cs[j]);
                }
            }
        }
    }
}

} // verus!

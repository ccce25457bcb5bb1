//! Components without floating-point state: names, tags, mesh renderers and
//! the light and camera settings.
use vstd::prelude::*;
use crate::collections::{owned, str_views};

verus! {

/// Draws a mesh with a material.
#[derive(Debug, Clone)]
pub struct MeshRenderer {
    pub mesh_name: String,
    pub material_name: String,
    pub visible: bool,
    pub cast_shadows: bool,
    pub receive_shadows: bool,
}

impl Default for MeshRenderer {
    /// The `default` mesh with the `default` material, visible, casting and receiving shadows.
    fn default() -> (r: MeshRenderer)
        ensures
            r.mesh_name@ == "default"@,
            r.material_name@ == "default"@,
            r.visible && r.cast_shadows && r.receive_shadows,
    {
        MeshRenderer {
            mesh_name: owned("default"),
            material_name: owned("default"),
            visible: true,
            cast_shadows: true,
            receive_shadows: true,
        }
    }
}

impl MeshRenderer {
    /// Draws `mesh_name` with `material_name`; visible, casting and receiving shadows.
    pub fn new(mesh_name: &str, material_name: &str) -> (r: MeshRenderer)
        ensures
            r.mesh_name@ == mesh_name@,
            r.material_name@ == material_name@,
            r.visible && r.cast_shadows && r.receive_shadows,
    {
        MeshRenderer {
            mesh_name: owned(mesh_name),
            material_name: owned(material_name),
            visible: true,
            cast_shadows: true,
            receive_shadows: true,
        }
    }
}

/// A camera's place in the world; the view it renders from lives in the renderer.
#[derive(Debug, Clone)]
pub struct Camera {
    pub render_target: Option<String>,
}

impl Default for Camera {
    /// Renders to the screen.
    fn default() -> (r: Camera)
        ensures
            r.render_target is None,
    {
        Camera { render_target: None }
    }
}

/// The kinds of light.
#[derive(Debug, Clone, Copy, PartialEq, Eq, Structural)]
pub enum LightType {
    Directional,
    Point,
    Spot,
}

/// A name.
#[derive(Debug, Clone)]
pub struct Name {
    pub name: String,
}

impl Name {
    /// The name `name`.
    pub fn new(name: &str) -> (r: Name)
        ensures
            r.name@ == name@,
    {
        Name { name: owned(name) }
    }
}

/// A list of tags.
#[derive(Debug, Clone)]
pub struct Tag {
    pub tags: Vec<String>,
}

impl Tag {
    /// The tags, as character sequences.
    pub open spec fn tag_seq(&self) -> Seq<Seq<char>> {
        str_views(self.tags@)
    }

    /// No tags.
    pub fn new() -> (r: Tag)
        ensures
            r.tag_seq() == Seq::<Seq<char>>::empty(),
    {
        let r = Tag { tags: Vec::new() };
        proof {
            assert(r.tag_seq() =~= Seq::<Seq<char>>::empty());
        }
        r
    }

    /// The same tags with `tag` appended, whether or not it is there already.
    pub fn with_tag(self, tag: &str) -> (r: Tag)
        ensures
            r.tag_seq() == self.tag_seq().push(tag@),
    {
        let mut s = self;
        let ghost t0 = s.tags@;
        s.tags.push(owned(tag));
        proof {
            assert(str_views(s.tags@) =~= str_views(t0).push(tag@));
        }
        s
    }

    /// Appends `tag` unless it is there already.
    pub fn add_tag(&mut self, tag: &str)
        ensures
            final(self).tag_seq() == if old(self).tag_seq().contains(tag@) {
                old(self).tag_seq()
            } else {
                old(self).tag_seq().push(tag@)
            },
    {
        if !self.has_tag(tag) {
            let ghost t0 = self.tags@;
            self.tags.push(owned(tag));
            proof {
                assert(str_views(self.tags@) =~= str_views(t0).push(tag@));
            }
        }
    }

    /// Removes every occurrence of `tag`, keeping the others in order.
    pub fn remove_tag(&mut self, tag: &str)
        ensures
            final(self).tag_seq() == old(self).tag_seq().filter(|t: Seq<char>| t != tag@),
    {
        let mut kept: Vec<String> = Vec::new();
        let mut old_tags: Vec<String> = Vec::new();
        std::mem::swap(&mut old_tags, &mut self.tags);
        let ghost ts = str_views(old_tags@);
        let key = owned(tag);
        let mut i: usize = 0;
        while i < old_tags.len()
            invariant
                i <= old_tags@.len(),
                ts == str_views(old_tags@),
                key@ == tag@,
                str_views(kept@) == ts.take(i as int).filter(|t: Seq<char>| t != tag@),
            decreases old_tags@.len() - i,
        {
            let ghost k0 = kept@;
            proof {
                assert(ts.take(i + 1) =~= ts.take(i as int).push(ts[i as int]));
                ts.take(i as int).lemma_filter_push(ts[i as int], |t: Seq<char>| t != tag@);
            }
            if old_tags[i] != key {
                kept.push(old_tags[i].clone());
                proof {
                    assert(str_views(kept@) =~= str_views(k0).push(ts[i as int]));
                }
            }
            i = i + 1;
        }
        proof {
            assert(ts.take(old_tags@.len() as int) =~= ts);
        }
        self.tags = kept;
    }

    /// Whether `tag` is among the tags.
    pub fn has_tag(&self, tag: &str) -> (r: bool)
        ensures
            r == self.tag_seq().contains(tag@),
    {
        let key = owned(tag);
        let mut i: usize = 0;
        while i < self.tags.len()
            invariant
                i <= self.tags@.len(),
                key@ == tag@,
                forall|j: int| 0 <= j < i ==> self.tags@[j]@ != tag@,
            decreases self.tags@.len() - i,
        {
            if self.tags[i] == key {
                proof {
                    assert(self.tag_seq()[i as int] == tag@);
                }
                return true;
            }
            i = i + 1;
        }
        proof {
            if self.tag_seq().contains(tag@) {
                let j = choose|j: int| 0 <= j < self.tag_seq().len() && self.tag_seq()[j] == tag@;
                assert(self.tags@[j]@ == tag@);
            }
        }
        false
    }
}

impl Default for Tag {
    fn default() -> (r: Tag)
        ensures
            r.tag_seq() == Seq::<Seq<char>>::empty(),
    {
        Tag::new()
    }
}

/// Adding a tag twice is adding it once, and after adding a tag and
/// removing it, it is gone, whatever tags there were.
pub proof fn lemma_tag_add_remove(tags: Seq<Seq<char>>, t: Seq<char>)
    ensures
        (if tags.push(t).contains(t) { tags.push(t) } else { tags.push(t).push(t) }) == tags.push(t),
        !(if tags.contains(t) { tags } else { tags.push(t) }).filter(|x: Seq<char>| x != t).contains(t),
{
    assert(tags.push(t)[tags.len() as int] == t);
    let added = if tags.contains(t) { tags } else { tags.push(t) };
    let f = added.filter(|x: Seq<char>| x != t);
    if f.contains(t) {
        let j = choose|j: int| 0 <= j < f.len() && f[j] == t;
        added.lemma_filter_pred(|x: Seq<char>| x != t, j);
    }
}

} // verus!

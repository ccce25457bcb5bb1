//! Asset loaders: which loader takes which file extensions, the registry
//! that picks a loader for a path, and the grammar of Wavefront OBJ files.
//! Reading files and building the loaded assets is left to the caller.
use vstd::prelude::*;
use vstd::string::StringExecFns;
use crate::collections::{lemma_push_contains, owned, str_views};
use crate::text::{chars_of, split_whitespace_chars, string_of, words};
use crate::EngineError;

verus! {

/// A loader of one kind of asset.
pub trait AssetLoader {
    /// The file extensions the loader takes.
    spec fn spec_extensions(&self) -> Seq<Seq<char>>;

    /// The file extensions the loader takes.
    fn extensions(&self) -> (r: Vec<&'static str>)
        ensures
            r@.map_values(|e: &'static str| e@) == self.spec_extensions();

    /// Whether the loader takes files with `extension`.
    fn supports_extension(&self, extension: &str) -> (r: bool)
        ensures
            r == self.spec_extensions().contains(extension@),
    {
        let exts = self.extensions();
        let mut i: usize = 0;
        while i < exts.len()
            invariant
                i <= exts@.len(),
                exts@.map_values(|e: &'static str| e@) == self.spec_extensions(),
                forall|j: int| 0 <= j < i ==> exts@[j]@ != extension@,
            decreases exts@.len() - i,
        {
            if owned(exts[i]) == owned(extension) {
                proof {
                    assert(self.spec_extensions()[i as int] == extension@);
                }
                return true;
            }
            i = i + 1;
        }
        proof {
            if self.spec_extensions().contains(extension@) {
                let j = choose|j: int| 0 <= j < self.spec_extensions().len()
                    && self.spec_extensions()[j] == extension@;
                assert(exts@[j]@ == extension@);
            }
        }
        false
    }
}

/// Loads textures.
pub struct TextureLoader;

/// Loads shaders.
pub struct ShaderLoader;

/// Loads materials.
pub struct MaterialLoader;

/// Loads meshes.
pub struct MeshLoader;

/// Loads audio clips.
pub struct AudioLoader;

impl AssetLoader for TextureLoader {
    open spec fn spec_extensions(&self) -> Seq<Seq<char>> {
        seq!["png"@, "jpg"@, "jpeg"@, "bmp"@, "tga"@, "dds"@, "hdr"@]
    }

    fn extensions(&self) -> (r: Vec<&'static str>) {
        let r = vec!["png", "jpg", "jpeg", "bmp", "tga", "dds", "hdr"];
        proof {
            assert(r@.map_values(|e: &'static str| e@) =~= self.spec_extensions());
        }
        r
    }
}

impl AssetLoader for ShaderLoader {
    open spec fn spec_extensions(&self) -> Seq<Seq<char>> {
        seq!["wgsl"@, "glsl"@, "hlsl"@]
    }

    fn extensions(&self) -> (r: Vec<&'static str>) {
        let r = vec!["wgsl", "glsl", "hlsl"];
        proof {
            assert(r@.map_values(|e: &'static str| e@) =~= self.spec_extensions());
        }
        r
    }
}

impl AssetLoader for MaterialLoader {
    open spec fn spec_extensions(&self) -> Seq<Seq<char>> {
        seq!["mat"@, "json"@]
    }

    fn extensions(&self) -> (r: Vec<&'static str>) {
        let r = vec!["mat", "json"];
        proof {
            assert(r@.map_values(|e: &'static str| e@) =~= self.spec_extensions());
        }
        r
    }
}

impl AssetLoader for MeshLoader {
    open spec fn spec_extensions(&self) -> Seq<Seq<char>> {
        seq!["obj"@, "fbx"@, "gltf"@, "glb"@]
    }

    fn extensions(&self) -> (r: Vec<&'static str>) {
        let r = vec!["obj", "fbx", "gltf", "glb"];
        proof {
            assert(r@.map_values(|e: &'static str| e@) =~= self.spec_extensions());
        }
        r
    }
}

impl AssetLoader for AudioLoader {
    open spec fn spec_extensions(&self) -> Seq<Seq<char>> {
        seq!["wav"@, "mp3"@, "ogg"@, "flac"@]
    }

    fn extensions(&self) -> (r: Vec<&'static str>) {
        let r = vec!["wav", "mp3", "ogg", "flac"];
        proof {
            assert(r@.map_values(|e: &'static str| e@) =~= self.spec_extensions());
        }
        r
    }
}

/// The encodings of audio files.
#[derive(Debug, Clone, Copy, PartialEq, Eq, Structural)]
pub enum AudioFormat {
    Wav,
    Mp3,
    Ogg,
    Flac,
    Unknown,
}

/// A loaded audio file.
#[derive(Debug, Clone)]
pub struct AudioClip {
    pub name: String,
    pub data: Vec<u8>,
    pub format: AudioFormat,
}

/// A registered loader: its extensions and the name of the asset type it makes.
pub struct LoaderEntry {
    pub extensions: Vec<String>,
    pub asset_type: String,
}

/// A loader whose asset type is known by name only.
pub trait ErasedAssetLoader {
    /// The file extensions the loader takes.
    fn loader_extensions(&self) -> Vec<String>;

    /// The name of the asset type the loader makes.
    fn asset_type_name(&self) -> String;
}

impl ErasedAssetLoader for LoaderEntry {
    fn loader_extensions(&self) -> (r: Vec<String>)
        ensures
            str_views(r@) == str_views(self.extensions@),
    {
        let mut r: Vec<String> = Vec::new();
        let mut i: usize = 0;
        while i < self.extensions.len()
            invariant
                i <= self.extensions@.len(),
                str_views(r@) == str_views(self.extensions@).take(i as int),
            decreases self.extensions@.len() - i,
        {
            let e = self.extensions[i].clone();
            let ghost r0 = r@;
            r.push(e);
            proof {
                assert(str_views(r@) =~= str_views(r0).push(self.extensions@[i as int]@));
                assert(str_views(r@) =~= str_views(self.extensions@).take(i + 1));
            }
            i = i + 1;
        }
        proof {
            assert(str_views(self.extensions@).take(self.extensions@.len() as int) =~= str_views(self.extensions@));
        }
        r
    }

    fn asset_type_name(&self) -> (r: String)
        ensures
            r@ == self.asset_type@,
    {
        self.asset_type.clone()
    }
}

/// The loaders in registration order; a loader's number is its position.
pub struct AssetLoaderRegistry {
    loaders: Vec<LoaderEntry>,
}

/// The built-in loaders, in this order: textures, shaders, materials,
/// meshes and audio clips.
impl Default for AssetLoaderRegistry {
    fn default() -> (r: AssetLoaderRegistry)
        ensures
            r.entries().len() == 5,
            str_views(r.entries()[0].extensions@) == TextureLoader.spec_extensions(),
            r.entries()[0].asset_type@ == "Texture"@,
            str_views(r.entries()[1].extensions@) == ShaderLoader.spec_extensions(),
            r.entries()[1].asset_type@ == "Shader"@,
            str_views(r.entries()[2].extensions@) == MaterialLoader.spec_extensions(),
            r.entries()[2].asset_type@ == "Material"@,
            str_views(r.entries()[3].extensions@) == MeshLoader.spec_extensions(),
            r.entries()[3].asset_type@ == "Mesh"@,
            str_views(r.entries()[4].extensions@) == AudioLoader.spec_extensions(),
            r.entries()[4].asset_type@ == "AudioClip"@,
    {
        let mut r = AssetLoaderRegistry::new();
        r.register(TextureLoader, "Texture");
        let ghost e0 = r.entries();
        r.register(ShaderLoader, "Shader");
        let ghost e1 = r.entries();
        r.register(MaterialLoader, "Material");
        let ghost e2 = r.entries();
        r.register(MeshLoader, "Mesh");
        let ghost e3 = r.entries();
        r.register(AudioLoader, "AudioClip");
        proof {
            assert(r.entries().drop_last() == e3);
            assert(e3.drop_last() == e2);
            assert(e2.drop_last() == e1);
            assert(e1.drop_last() == e0);
            assert(r.entries()[3] == e3[3]);
            assert(r.entries()[2] == e3[2] && e3[2] == e2[2]);
            assert(r.entries()[1] == e3[1] && e3[1] == e2[1] && e2[1] == e1[1]);
            assert(r.entries()[0] == e3[0] && e3[0] == e2[0] && e2[0] == e1[0] && e1[0] == e0[0]);
        }
        r
    }
}

/// The position of the first loader of `ls` that takes `ext`, if any.
pub open spec fn first_loader(ls: Seq<LoaderEntry>, ext: Seq<char>) -> Option<int>
    decreases ls.len(),
{
    if ls.len() == 0 {
        None
    } else {
        match first_loader(ls.drop_last(), ext) {
            Some(i) => Some(i),
            None => if str_views(ls.last().extensions@).contains(ext) { Some(ls.len() - 1) } else { None },
        }
    }
}

/// The extensions of the loaders `ls`, loader by loader, each in its order.
pub open spec fn all_extensions(ls: Seq<LoaderEntry>) -> Seq<Seq<char>>
    decreases ls.len(),
{
    if ls.len() == 0 {
        Seq::empty()
    } else {
        all_extensions(ls.drop_last()) + str_views(ls.last().extensions@)
    }
}

impl AssetLoaderRegistry {
    /// The loaders in registration order.
    pub closed spec fn entries(&self) -> Seq<LoaderEntry> {
        self.loaders@
    }

    /// No loaders.
    pub fn new() -> (r: AssetLoaderRegistry)
        ensures
            r.entries() == Seq::<LoaderEntry>::empty(),
    {
        AssetLoaderRegistry { loaders: Vec::new() }
    }

    /// Registers `loader`, which makes assets of the type named `asset_type`,
    /// after the others; returns its number.
    pub fn register<L: AssetLoader>(&mut self, loader: L, asset_type: &str) -> (r: usize)
        ensures
            r == old(self).entries().len(),
            final(self).entries().len() == old(self).entries().len() + 1,
            final(self).entries().drop_last() == old(self).entries(),
            str_views(final(self).entries().last().extensions@) == loader.spec_extensions(),
            final(self).entries().last().asset_type@ == asset_type@,
    {
        let exts = loader.extensions();
        let mut names: Vec<String> = Vec::new();
        let mut i: usize = 0;
        while i < exts.len()
            invariant
                i <= exts@.len(),
                exts@.map_values(|e: &'static str| e@) == loader.spec_extensions(),
                str_views(names@) == loader.spec_extensions().take(i as int),
            decreases exts@.len() - i,
        {
            let ghost n0 = names@;
            names.push(owned(exts[i]));
            proof {
                assert(str_views(names@) =~= str_views(n0).push(exts@[i as int]@));
                assert(loader.spec_extensions()[i as int] == exts@[i as int]@);
                assert(str_views(names@) =~= loader.spec_extensions().take(i + 1));
            }
            i = i + 1;
        }
        proof {
            assert(loader.spec_extensions().take(exts@.len() as int) =~= loader.spec_extensions());
        }
        let r = self.loaders.len();
        self.loaders.push(LoaderEntry { extensions: names, asset_type: owned(asset_type) });
        proof {
            assert(self.loaders@.drop_last() =~= old(self).loaders@);
        }
        r
    }

    /// The number of the first loader registered that takes `extension`.
    pub fn find_loader(&self, extension: &str) -> (r: Option<usize>)
        ensures
            match first_loader(self.entries(), extension@) {
                Some(i) => r == Some(i as usize),
                None => r is None,
            },
    {
        let mut i: usize = 0;
        while i < self.loaders.len()
            invariant
                i <= self.loaders@.len(),
                first_loader(self.loaders@.take(i as int), extension@) is None,
            decreases self.loaders@.len() - i,
        {
            let entry = &self.loaders[i];
            let mut found = false;
            let mut k: usize = 0;
            while k < entry.extensions.len()
                invariant
                    k <= entry.extensions@.len(),
                    found == str_views(entry.extensions@).take(k as int).contains(extension@),
                decreases entry.extensions@.len() - k,
            {
                proof {
                    assert(str_views(entry.extensions@).take(k + 1)
                        =~= str_views(entry.extensions@).take(k as int).push(entry.extensions@[k as int]@));
                    lemma_push_contains(str_views(entry.extensions@).take(k as int), entry.extensions@[k as int]@, extension@);
                }
                if entry.extensions[k] == owned(extension) {
                    found = true;
                }
                k = k + 1;
            }
            proof {
                assert(str_views(entry.extensions@).take(k as int) =~= str_views(entry.extensions@));
                assert(self.loaders@.take(i + 1).drop_last() =~= self.loaders@.take(i as int));
            }
            if found {
                proof {
                    lemma_first_loader_prefix(self.loaders@, i + 1, extension@);
                }
                return Some(i);
            }
            i = i + 1;
        }
        proof {
            assert(self.loaders@.take(self.loaders@.len() as int) =~= self.loaders@);
        }
        None
    }

    /// The extensions of all loaders, loader by loader.
    pub fn supported_extensions(&self) -> (r: Vec<String>)
        ensures
            str_views(r@) == all_extensions(self.entries()),
    {
        let mut r: Vec<String> = Vec::new();
        let mut i: usize = 0;
        while i < self.loaders.len()
            invariant
                i <= self.loaders@.len(),
                str_views(r@) == all_extensions(self.loaders@.take(i as int)),
            decreases self.loaders@.len() - i,
        {
            let more = self.loaders[i].loader_extensions();
            let ghost r0 = r@;
            let mut k: usize = 0;
            while k < more.len()
                invariant
                    k <= more@.len(),
                    str_views(r@) == str_views(r0) + str_views(more@).take(k as int),
                decreases more@.len() - k,
            {
                let ghost r1 = r@;
                r.push(more[k].clone());
                proof {
                    assert(str_views(r@) =~= str_views(r1).push(more@[k as int]@));
                    assert(str_views(more@).take(k + 1) =~= str_views(more@).take(k as int).push(more@[k as int]@));
                    assert(str_views(r@) =~= str_views(r0) + str_views(more@).take(k + 1));
                }
                k = k + 1;
            }
            proof {
                assert(str_views(more@).take(more@.len() as int) =~= str_views(more@));
                assert(self.loaders@.take(i + 1).drop_last() =~= self.loaders@.take(i as int));
            }
            i = i + 1;
        }
        proof {
            assert(self.loaders@.take(self.loaders@.len() as int) =~= self.loaders@);
        }
        r
    }

    /// The name of the asset type that the loader numbered `i` makes, if
    /// there is such a loader.
    pub fn loader_asset_type(&self, i: usize) -> (r: Option<&str>)
        ensures
            match r {
                Some(t) => i < self.entries().len() && t@ == self.entries()[i as int].asset_type@,
                None => i >= self.entries().len(),
            },
    {
        if i < self.loaders.len() {
            Some(self.loaders[i].asset_type.as_str())
        } else {
            None
        }
    }

    /// The loader for the file `path`: the first that takes its extension.
    /// A path without an extension, or with one no loader takes, is an
    /// asset error saying so.
    pub fn resolve(&self, path: &str) -> (r: Result<usize, EngineError>)
        ensures
            match path_extension_of(path@) {
                None => r matches Err(EngineError::AssetError(m)) && m@ == "文件没有扩展名"@,
                Some(ext) => match first_loader(self.entries(), ext) {
                    Some(i) => r == Ok::<usize, EngineError>(i as usize),
                    None => r matches Err(EngineError::AssetError(m)) && m@ == "不支持的文件格式: "@ + ext,
                },
            },
    {
        match path_extension(path) {
            None => Err(EngineError::AssetError(owned("文件没有扩展名"))),
            Some(ext) => match self.find_loader(ext.as_str()) {
                Some(i) => Ok(i),
                None => {
                    let mut m = owned("不支持的文件格式: ");
                    m.append(ext.as_str());
                    Err(EngineError::AssetError(m))
                },
            },
        }
    }
}

proof fn lemma_first_loader_prefix(ls: Seq<LoaderEntry>, n: int, ext: Seq<char>)
    requires
        0 < n <= ls.len(),
        first_loader(ls.take(n - 1), ext) is None,
        str_views(ls[n - 1].extensions@).contains(ext),
    ensures
        first_loader(ls, ext) == Some(n - 1),
    decreases ls.len(),
{
    assert(ls.take(n).drop_last() =~= ls.take(n - 1));
    assert(first_loader(ls.take(n), ext) == Some(n - 1));
    if n < ls.len() {
        assert(ls.drop_last().take(n) =~= ls.take(n));
        assert(ls.drop_last().take(n - 1) =~= ls.take(n - 1));
        lemma_first_loader_prefix(ls.drop_last(), n, ext);
    } else {
        assert(ls.take(n) =~= ls);
    }
}

/// The parts of a path between slashes that name something: no empty
/// parts, no `.` parts.
pub open spec fn path_parts(p: Seq<char>) -> Seq<Seq<char>> {
    keep_parts(split_at_slash(p))
}

/// The segments that name something: not empty, not `.`.
pub open spec fn keep_parts(segs: Seq<Seq<char>>) -> Seq<Seq<char>> {
    segs.filter(|c: Seq<char>| c.len() > 0 && c != "."@)
}

/// `p` cut at every slash.
pub open spec fn split_at_slash(p: Seq<char>) -> Seq<Seq<char>>
    decreases p.len(),
{
    if p.len() == 0 {
        seq![Seq::empty()]
    } else {
        let before = split_at_slash(p.drop_last());
        if p.last() == '/' {
            before.push(Seq::empty())
        } else {
            before.drop_last().push(before.last().push(p.last()))
        }
    }
}

/// The file name of a path: its last part, unless that is `..` or there is none.
pub open spec fn file_name_of(p: Seq<char>) -> Option<Seq<char>> {
    let parts = path_parts(p);
    if parts.len() == 0 || parts.last() == ".."@ { None } else { Some(parts.last()) }
}

/// The extension of a path: what follows the last dot of the file name,
/// when the name has a dot that is not its first character.
pub open spec fn path_extension_of(p: Seq<char>) -> Option<Seq<char>> {
    match file_name_of(p) {
        None => None,
        Some(name) => match name.index_of_last('.') {
            Some(i) => if i == 0 { None } else { Some(name.subrange(i + 1, name.len() as int)) },
            None => None,
        },
    }
}

/// The extension of the path `path`, as `Path::extension` finds it.
pub fn path_extension(path: &str) -> (r: Option<String>)
    ensures
        match path_extension_of(path@) {
            Some(e) => r matches Some(s) && s@ == e,
            None => r is None,
        },
{
    let cs = chars_of(path);
    // the last part that names something
    let mut last: Vec<char> = Vec::new();
    let mut cur: Vec<char> = Vec::new();
    let mut have_last = false;
    let mut i: usize = 0;
    while i < cs.len()
        invariant
            i <= cs@.len(),
            cur@ == split_at_slash(cs@.take(i as int)).last(),
            split_at_slash(cs@.take(i as int)).len() > 0,
            have_last == (keep_parts(split_at_slash_done(cs@.take(i as int))).len() > 0),
            have_last ==> last@ == keep_parts(split_at_slash_done(cs@.take(i as int))).last(),
        decreases cs@.len() - i,
    {
        let ghost done0 = split_at_slash_done(cs@.take(i as int));
        let ghost cur0 = cur@;
        proof {
            assert(cs@.take(i + 1).drop_last() =~= cs@.take(i as int));
            assert(cs@.take(i + 1).last() == cs@[i as int]);
            lemma_split_step(cs@.take(i + 1));
            let sp = split_at_slash(cs@.take(i as int));
            assert(sp =~= done0.push(cur0));
            done0.lemma_filter_push(cur0, |c: Seq<char>| c.len() > 0 && c != "."@);
        }
        if cs[i] == '/' {
            if cur.len() > 0 && !is_dot(&cur) {
                last = cur;
                have_last = true;
            }
            cur = Vec::new();
        } else {
            cur.push(cs[i]);
        }
        i = i + 1;
    }
    proof {
        assert(cs@.take(cs@.len() as int) =~= cs@);
        lemma_parts_split(cs@);
    }
    let name: Vec<char> = if cur.len() > 0 && !is_dot(&cur) {
        cur
    } else if have_last {
        last
    } else {
        return None;
    };
    if is_dot_dot(&name) {
        return None;
    }
    let mut k = name.len();
    while k > 0 && name[k - 1] != '.'
        invariant
            k <= name@.len(),
            forall|j: int| k <= j < name@.len() ==> name@[j] != '.',
        decreases k,
    {
        k = k - 1;
    }
    proof {
        name@.index_of_last_ensures('.');
    }
    if k <= 1 {
        proof {
            if k == 1 {
                assert(name@[0] == '.');
            }
        }
        return None;
    }
    let mut ext: Vec<char> = Vec::new();
    let mut j = k;
    while j < name.len()
        invariant
            k <= j <= name@.len(),
            ext@ == name@.subrange(k as int, j as int),
        decreases name@.len() - j,
    {
        ext.push(name[j]);
        j = j + 1;
        proof {
            assert(ext@ =~= name@.subrange(k as int, j as int));
        }
    }
    Some(string_of(&ext))
}

/// `p` cut at every slash, without the part after the last slash.
pub open spec fn split_at_slash_done(p: Seq<char>) -> Seq<Seq<char>> {
    split_at_slash(p).drop_last()
}

proof fn lemma_split_step(p: Seq<char>)
    requires
        p.len() > 0,
    ensures
        split_at_slash(p).len() > 0,
        p.last() == '/' ==> split_at_slash_done(p) == split_at_slash(p.drop_last()),
        p.last() == '/' ==> split_at_slash(p).last() == Seq::<char>::empty(),
        p.last() != '/' ==> split_at_slash_done(p) == split_at_slash_done(p.drop_last()),
        p.last() != '/' ==> split_at_slash(p).last() == split_at_slash(p.drop_last()).last().push(p.last()),
    decreases p.len(),
{
    lemma_split_nonempty(p.drop_last());
    let before = split_at_slash(p.drop_last());
    if p.last() == '/' {
        assert(split_at_slash(p).drop_last() =~= before);
    } else {
        assert(split_at_slash(p).drop_last() =~= before.drop_last());
    }
}

proof fn lemma_split_nonempty(p: Seq<char>)
    ensures
        split_at_slash(p).len() > 0,
    decreases p.len(),
{
    if p.len() > 0 {
        lemma_split_nonempty(p.drop_last());
    }
}

proof fn lemma_parts_split(p: Seq<char>)
    ensures
        path_parts(p) == keep_parts(split_at_slash_done(p)) + (
            if split_at_slash(p).last().len() > 0 && split_at_slash(p).last() != "."@ {
                seq![split_at_slash(p).last()]
            } else {
                Seq::empty()
            }),
{
    lemma_split_nonempty(p);
    let s = split_at_slash(p);
    let f = |c: Seq<char>| c.len() > 0 && c != "."@;
    assert(s =~= s.drop_last().push(s.last()));
    s.drop_last().lemma_filter_push(s.last(), f);
}

fn is_dot(cs: &Vec<char>) -> (r: bool)
    ensures
        r == (cs@ == "."@),
{
    proof {
        reveal_strlit(".");
    }
    let r = cs.len() == 1 && cs[0] == '.';
    proof {
        if r {
            assert(cs@ =~= "."@);
        }
    }
    r
}

fn is_dot_dot(cs: &Vec<char>) -> (r: bool)
    ensures
        r == (cs@ == ".."@),
{
    proof {
        reveal_strlit("..");
    }
    let r = cs.len() == 2 && cs[0] == '.' && cs[1] == '.';
    proof {
        if r {
            assert(cs@ =~= ".."@);
        }
    }
    r
}


/// A statement of an OBJ file, with its numbers still as text.
pub enum ObjLine {
    Position { x: String, y: String, z: String },
    Normal { x: String, y: String, z: String },
    TexCoord { u: String, v: String },
    Face { indices: Vec<u32> },
}

/// A statement of an OBJ file, as character sequences.
pub enum ObjRecord {
    Position(Seq<char>, Seq<char>, Seq<char>),
    Normal(Seq<char>, Seq<char>, Seq<char>),
    TexCoord(Seq<char>, Seq<char>),
    Face(Seq<u32>),
}

impl ObjLine {
    /// The statement as character sequences.
    pub open spec fn record(&self) -> ObjRecord {
        match self {
            ObjLine::Position { x, y, z } => ObjRecord::Position(x@, y@, z@),
            ObjLine::Normal { x, y, z } => ObjRecord::Normal(x@, y@, z@),
            ObjLine::TexCoord { u, v } => ObjRecord::TexCoord(u@, v@),
            ObjLine::Face { indices } => ObjRecord::Face(indices@),
        }
    }
}

/// The statements of lines as character sequences.
pub open spec fn records(ls: Seq<ObjLine>) -> Seq<ObjRecord> {
    ls.map_values(|l: ObjLine| l.record())
}

/// The lines of `s` read so far: the finished ones and the one under way.
pub open spec fn lines_fold(s: Seq<char>) -> (Seq<Seq<char>>, Seq<char>)
    decreases s.len(),
{
    if s.len() == 0 {
        (Seq::empty(), Seq::empty())
    } else {
        let (done, cur) = lines_fold(s.drop_last());
        if s.last() == '\n' { (done.push(cur), Seq::empty()) } else { (done, cur.push(s.last())) }
    }
}

/// A line without its trailing carriage return.
pub open spec fn strip_cr(l: Seq<char>) -> Seq<char> {
    if l.len() > 0 && l.last() == '\r' { l.drop_last() } else { l }
}

/// The value of the decimal digits `d`.
pub open spec fn digits_value(d: Seq<char>) -> nat
    decreases d.len(),
{
    if d.len() == 0 { 0 } else { digits_value(d.drop_last()) * 10 + ((d.last() as u32 - '0' as u32) as nat) }
}

/// Whether every character of `d` is a decimal digit.
pub open spec fn all_digits(d: Seq<char>) -> bool {
    forall|i: int| 0 <= i < d.len() ==> '0' <= #[trigger] d[i] <= '9'
}

/// The number `t` spells, as `usize::from_str` reads it: an optional plus
/// sign, then one or more decimal digits, within `usize`.
pub open spec fn parse_index(t: Seq<char>) -> Option<nat> {
    let d = if t.len() > 0 && t[0] == '+' { t.drop_first() } else { t };
    if d.len() == 0 || !all_digits(d) || digits_value(d) > usize::MAX {
        None
    } else {
        Some(digits_value(d))
    }
}

/// The text of a face vertex before its first slash.
pub open spec fn first_field(t: Seq<char>) -> Seq<char> {
    match t.index_of_first('/') {
        Some(i) => t.take(i),
        None => t,
    }
}

/// The zero-based position index of a face vertex, if its first field is a number.
pub open spec fn face_index(t: Seq<char>) -> Option<u32> {
    match parse_index(first_field(t)) {
        Some(p) => Some((p - 1) as u32),
        None => None,
    }
}

/// `s` with the index `o` appended if there is one.
pub open spec fn push_some(s: Seq<u32>, o: Option<u32>) -> Seq<u32> {
    match o {
        Some(x) => s.push(x),
        None => s,
    }
}

/// The statement a line of words makes: `v` and `vn` with three numbers,
/// `vt` with two, `f` with three vertices (of which the ones whose first
/// field is a number count), and nothing else.
pub open spec fn obj_record(ws: Seq<Seq<char>>) -> Option<ObjRecord> {
    if ws.len() == 0 {
        None
    } else if ws[0] == "v"@ {
        if ws.len() >= 4 { Some(ObjRecord::Position(ws[1], ws[2], ws[3])) } else { None }
    } else if ws[0] == "vn"@ {
        if ws.len() >= 4 { Some(ObjRecord::Normal(ws[1], ws[2], ws[3])) } else { None }
    } else if ws[0] == "vt"@ {
        if ws.len() >= 3 { Some(ObjRecord::TexCoord(ws[1], ws[2])) } else { None }
    } else if ws[0] == "f"@ {
        if ws.len() >= 4 {
            Some(ObjRecord::Face(push_some(push_some(push_some(Seq::empty(),
                face_index(ws[1])), face_index(ws[2])), face_index(ws[3]))))
        } else {
            None
        }
    } else {
        None
    }
}

/// Fields after the ones a statement reads change nothing: a line that
/// makes a statement makes the same statement with more words after it (a
/// `vt` line with an optional third coordinate is the same texture
/// coordinate, a `v` line with a weight the same position, a face with a
/// fourth vertex the same triangle).
pub proof fn lemma_trailing_fields_ignored(ws: Seq<Seq<char>>, extra: Seq<Seq<char>>)
    requires
        obj_record(ws) is Some,
    ensures
        obj_record(ws + extra) == obj_record(ws),
{
    let all = ws + extra;
    assert(all.len() >= ws.len());
    assert forall|i: int| 0 <= i < ws.len() implies all[i] == ws[i] by {}
    assert(all[0] == ws[0]);
    if ws.len() >= 4 {
        assert(all[1] == ws[1] && all[2] == ws[2] && all[3] == ws[3]);
    } else if ws.len() >= 3 {
        assert(all[1] == ws[1] && all[2] == ws[2]);
    }
}

/// A `vt` line with at least two numbers is the texture coordinate of its
/// first two numbers, whatever follows them.
pub proof fn lemma_tex_coord_of_first_two(ws: Seq<Seq<char>>)
    requires
        ws.len() >= 3,
        ws[0] == "vt"@,
    ensures
        obj_record(ws) == Some(ObjRecord::TexCoord(ws[1], ws[2])),
        forall|extra: Seq<Seq<char>>| #[trigger] obj_record(ws + extra) == Some(ObjRecord::TexCoord(ws[1], ws[2])),
{
    reveal_strlit("vt");
    reveal_strlit("v");
    reveal_strlit("vn");
    assert("vt"@.len() == 2 && "v"@.len() == 1);
    assert("vt"@[1] == 't' && "vn"@[1] == 'n');
    assert(ws[0] != "v"@);
    assert(ws[0] != "vn"@);
    assert forall|extra: Seq<Seq<char>>| #[trigger] obj_record(ws + extra) == Some(ObjRecord::TexCoord(ws[1], ws[2])) by {
        lemma_trailing_fields_ignored(ws, extra);
    }
}

/// The statements of the lines `ls`, in order.
pub open spec fn records_of_lines(ls: Seq<Seq<char>>) -> Seq<ObjRecord>
    decreases ls.len(),
{
    if ls.len() == 0 {
        Seq::empty()
    } else {
        let before = records_of_lines(ls.drop_last());
        match obj_record(words(strip_cr(ls.last()))) {
            Some(r) => before.push(r),
            None => before,
        }
    }
}

/// The lines of `s`: cut at every newline.
pub open spec fn obj_lines(s: Seq<char>) -> Seq<Seq<char>> {
    lines_fold(s).0.push(lines_fold(s).1)
}

/// The statements of the OBJ text `s`.
pub open spec fn obj_records(s: Seq<char>) -> Seq<ObjRecord> {
    records_of_lines(obj_lines(s))
}

/// A face line names no vertex zero (OBJ counts vertices from one).
pub open spec fn line_indices_from_one(l: Seq<char>) -> bool {
    let ws = words(strip_cr(l));
    (ws.len() >= 4 && ws[0] == "f"@) ==> forall|i: int| 1 <= i <= 3 ==> parse_index(first_field(#[trigger] ws[i])) != Some(0nat)
}

/// No face of the text `s` names vertex zero.
pub open spec fn indices_from_one(s: Seq<char>) -> bool {
    forall|i: int| 0 <= i < obj_lines(s).len() ==> #[trigger] line_indices_from_one(obj_lines(s)[i])
}

fn same_word(w: &Vec<char>, lit: &str) -> (r: bool)
    ensures
        r == (w@ == lit@),
{
    let a = string_of(w);
    a == owned(lit)
}

/// The number the characters `t` spell, as `usize::from_str` reads it.
pub fn parse_index_exec(t: &Vec<char>) -> (r: Option<usize>)
    ensures
        match parse_index(t@) {
            Some(v) => r == Some(v as usize),
            None => r is None,
        },
{
    let start: usize = if t.len() > 0 && t[0] == '+' { 1 } else { 0 };
    let ghost d = if t@.len() > 0 && t@[0] == '+' { t@.drop_first() } else { t@ };
    proof {
        assert(d =~= t@.subrange(start as int, t@.len() as int));
    }
    if start == t.len() {
        return None;
    }
    let mut value: usize = 0;
    let mut i = start;
    while i < t.len()
        invariant
            start <= i <= t@.len(),
            start < t@.len(),
            d == t@.subrange(start as int, t@.len() as int),
            d == (if t@.len() > 0 && t@[0] == '+' { t@.drop_first() } else { t@ }),
            all_digits(t@.subrange(start as int, i as int)),
            value == digits_value(t@.subrange(start as int, i as int)),
        decreases t@.len() - i,
    {
        let c = t[i];
        proof {
            assert(t@.subrange(start as int, i + 1).drop_last() =~= t@.subrange(start as int, i as int));
        }
        if c < '0' || c > '9' {
            proof {
                assert(d[i - start] == c);
            }
            return None;
        }
        let digit = (c as u32 - '0' as u32) as usize;
        match value.checked_mul(10) {
            Some(m) => match m.checked_add(digit) {
                Some(v) => {
                    value = v;
                },
                None => {
                    proof {
                        lemma_digits_prefix(d, i + 1 - start);
                        assert(d.take(i + 1 - start) =~= t@.subrange(start as int, i + 1));
                    }
                    return None;
                },
            },
            None => {
                proof {
                    lemma_digits_prefix(d, i + 1 - start);
                    assert(d.take(i + 1 - start) =~= t@.subrange(start as int, i + 1));
                }
                return None;
            },
        }
        i = i + 1;
    }
    proof {
        assert(t@.subrange(start as int, t@.len() as int) =~= d);
    }
    Some(value)
}

/// A longer run of digits is worth at least as much as its start.
proof fn lemma_digits_prefix(d: Seq<char>, k: int)
    requires
        0 <= k <= d.len(),
    ensures
        all_digits(d) ==> digits_value(d.take(k)) <= digits_value(d),
    decreases d.len(),
{
    if k < d.len() {
        assert(d.drop_last().take(k) =~= d.take(k));
        if all_digits(d) {
            assert(all_digits(d.drop_last()));
            lemma_digits_prefix(d.drop_last(), k);
        }
    } else {
        assert(d.take(k) =~= d);
    }
}

/// The text of a face vertex before its first slash.
fn first_field_exec(t: &Vec<char>) -> (r: Vec<char>)
    ensures
        r@ == first_field(t@),
{
    let mut k: usize = 0;
    while k < t.len() && t[k] != '/'
        invariant
            k <= t@.len(),
            forall|j: int| 0 <= j < k ==> t@[j] != '/',
        decreases t@.len() - k,
    {
        k = k + 1;
    }
    let mut field: Vec<char> = Vec::new();
    let mut j: usize = 0;
    while j < k
        invariant
            j <= k <= t@.len(),
            field@ == t@.take(j as int),
        decreases k - j,
    {
        field.push(t[j]);
        j = j + 1;
        proof {
            assert(field@ =~= t@.take(j as int));
        }
    }
    proof {
        t@.index_of_first_ensures('/');
        if k < t@.len() {
            assert(t@.index_of_first('/') == Some(k as int)) by {
                let f = t@.index_of_first('/');
                assert(f is Some);
                let fi = f->0;
                if fi < k { assert(t@[fi] != '/'); }
                if fi > k { assert(t@[k as int] == '/'); }
            }
        } else {
            assert(!t@.contains('/')) by {
                if t@.contains('/') {
                    let q = choose|q: int| 0 <= q < t@.len() && t@[q] == '/';
                }
            }
            assert(t@.take(k as int) =~= t@);
        }
    }
    field
}

/// The zero-based index of a face vertex `t`, if its first field is a number.
fn face_index_exec(t: &Vec<char>) -> (r: Option<u32>)
    requires
        parse_index(first_field(t@)) != Some(0nat),
    ensures
        r == face_index(t@),
{
    let field = first_field_exec(t);
    match parse_index_exec(&field) {
        Some(p) => Some((p - 1) as u32),
        None => None,
    }
}

/// Whether the vertex `t` does not name vertex zero.
fn vertex_from_one(t: &Vec<char>) -> (r: bool)
    ensures
        r == (parse_index(first_field(t@)) != Some(0nat)),
{
    let field = first_field_exec(t);
    match parse_index_exec(&field) {
        Some(p) => p != 0,
        None => true,
    }
}

/// The words of a line without its trailing carriage return.
fn line_words(line: &Vec<char>) -> (r: Vec<Vec<char>>)
    ensures
        r@.len() == words(strip_cr(line@)).len(),
        forall|q: int| 0 <= q < r@.len() ==> #[trigger] r@[q]@ == words(strip_cr(line@))[q],
{
    let mut stripped: Vec<char> = Vec::new();
    let n = if line.len() > 0 && line[line.len() - 1] == '\r' { line.len() - 1 } else { line.len() };
    let mut k: usize = 0;
    while k < n
        invariant
            k <= n <= line@.len(),
            stripped@ == line@.take(k as int),
        decreases n - k,
    {
        stripped.push(line[k]);
        k = k + 1;
        proof {
            assert(stripped@ =~= line@.take(k as int));
        }
    }
    proof {
        assert(stripped@ =~= strip_cr(line@));
    }
    let ws = split_whitespace_chars(&stripped);
    let ghost wv = words(strip_cr(line@));
    proof {
        assert(ws@.map_values(|w: Vec<char>| w@).len() == ws@.len());
        assert forall|q: int| 0 <= q < ws@.len() implies #[trigger] ws@[q]@ == wv[q] by {
            assert(ws@.map_values(|w: Vec<char>| w@)[q] == ws@[q]@);
        }
    }
    ws
}

/// Whether the line `line` is no face naming vertex zero.
fn line_from_one(line: &Vec<char>) -> (r: bool)
    ensures
        r == line_indices_from_one(line@),
{
    let ws = line_words(line);
    let ghost wv = words(strip_cr(line@));
    if ws.len() >= 4 && same_word(&ws[0], "f") {
        let a = vertex_from_one(&ws[1]);
        let b = vertex_from_one(&ws[2]);
        let c = vertex_from_one(&ws[3]);
        proof {
            if !(a && b && c) {
                if !a { assert(parse_index(first_field(wv[1])) == Some(0nat)); }
                if !b { assert(parse_index(first_field(wv[2])) == Some(0nat)); }
                if !c { assert(parse_index(first_field(wv[3])) == Some(0nat)); }
            } else {
                assert forall|i: int| 1 <= i <= 3 implies parse_index(first_field(#[trigger] wv[i])) != Some(0nat) by {
                    if i == 1 { assert(ws@[1]@ == wv[1]); }
                    if i == 2 { assert(ws@[2]@ == wv[2]); }
                    if i == 3 { assert(ws@[3]@ == wv[3]); }
                }
            }
        }
        a && b && c
    } else {
        proof {
            if ws.len() >= 4 {
                assert(ws@[0]@ == wv[0]);
            }
        }
        true
    }
}

/// The lines finished in a prefix of `s` are the first lines finished in `s`.
proof fn lemma_lines_prefix(s: Seq<char>, k: int)
    requires
        0 <= k <= s.len(),
    ensures
        lines_fold(s.take(k)).0.len() <= lines_fold(s).0.len(),
        forall|j: int| 0 <= j < lines_fold(s.take(k)).0.len()
            ==> #[trigger] lines_fold(s.take(k)).0[j] == lines_fold(s).0[j],
    decreases s.len(),
{
    if k < s.len() {
        let t = s.drop_last();
        assert(t.take(k) =~= s.take(k));
        lemma_lines_prefix(t, k);
        assert(s.drop_last() == t);
    } else {
        assert(s.take(k) =~= s);
    }
}

/// Appends the statement of `line` (if it makes one) to `out`.
fn parse_obj_line(line: &Vec<char>, out: &mut Vec<ObjLine>)
    requires
        line_indices_from_one(line@),
    ensures
        records(final(out)@) == match obj_record(words(strip_cr(line@))) {
            Some(r) => records(old(out)@).push(r),
            None => records(old(out)@),
        },
{
    let ws = line_words(line);
    let ghost wv = words(strip_cr(line@));
    if ws.len() == 0 {
        return;
    }
    let ghost o0 = out@;
    let item: Option<ObjLine> = if same_word(&ws[0], "v") {
        if ws.len() >= 4 {
            Some(ObjLine::Position { x: string_of(&ws[1]), y: string_of(&ws[2]), z: string_of(&ws[3]) })
        } else {
            None
        }
    } else if same_word(&ws[0], "vn") {
        if ws.len() >= 4 {
            Some(ObjLine::Normal { x: string_of(&ws[1]), y: string_of(&ws[2]), z: string_of(&ws[3]) })
        } else {
            None
        }
    } else if same_word(&ws[0], "vt") {
        if ws.len() >= 3 {
            Some(ObjLine::TexCoord { u: string_of(&ws[1]), v: string_of(&ws[2]) })
        } else {
            None
        }
    } else if same_word(&ws[0], "f") {
        if ws.len() >= 4 {
            proof {
                assert(parse_index(first_field(wv[1])) != Some(0nat));
                assert(parse_index(first_field(wv[2])) != Some(0nat));
                assert(parse_index(first_field(wv[3])) != Some(0nat));
            }
            let mut indices: Vec<u32> = Vec::new();
            let mut v: usize = 1;
            while v < 4
                invariant
                    1 <= v <= 4,
                    ws@.len() >= 4,
                    forall|q: int| 0 <= q < ws@.len() ==> #[trigger] ws@[q]@ == wv[q],
                    forall|q: int| 1 <= q <= 3 ==> parse_index(first_field(#[trigger] wv[q])) != Some(0nat),
                    indices@ == face_prefix(wv, v as int),
                decreases 4 - v,
            {
                match face_index_exec(&ws[v]) {
                    Some(x) => indices.push(x),
                    None => {},
                }
                v = v + 1;
            }
            proof {
                reveal_with_fuel(face_prefix, 4);
            }
            Some(ObjLine::Face { indices })
        } else {
            None
        }
    } else {
        None
    };
    match item {
        Some(it) => {
            out.push(it);
            proof {
                assert(records(out@) =~= records(o0).push(it.record()));
            }
        },
        None => {},
    }
}

/// The indices of the face vertices `1..v` of the words `ws`.
pub open spec fn face_prefix(ws: Seq<Seq<char>>, v: int) -> Seq<u32>
    decreases v,
{
    if v <= 1 { Seq::empty() } else { push_some(face_prefix(ws, v - 1), face_index(ws[v - 1])) }
}

impl MeshLoader {
    /// The statements of the OBJ text `content`, line by line: positions,
    /// normals and texture coordinates with their numbers as text, and
    /// faces with the zero-based position indices of their first three
    /// vertices. Faces must not name vertex zero.
    pub fn parse_obj(content: &str) -> (r: Vec<ObjLine>)
        requires
            indices_from_one(content@),
        ensures
            records(r@) == obj_records(content@),
    {
        let cs = chars_of(content);
        let ghost s = content@;
        let mut out: Vec<ObjLine> = Vec::new();
        let mut line: Vec<char> = Vec::new();
        let mut i: usize = 0;
        proof {
            assert(records(out@) =~= Seq::<ObjRecord>::empty());
        }
        while i < cs.len()
            invariant
                i <= cs@.len(),
                cs@ == s,
                s == content@,
                indices_from_one(s),
                lines_fold(s.take(i as int)).1 == line@,
                records(out@) == records_of_lines(lines_fold(s.take(i as int)).0),
            decreases cs@.len() - i,
        {
            let c = cs[i];
            proof {
                assert(s.take(i + 1).drop_last() =~= s.take(i as int));
                assert(s.take(i + 1).last() == c);
            }
            if c == '\n' {
                proof {
                    let d = lines_fold(s.take(i as int)).0;
                    lemma_lines_prefix(s, i + 1);
                    assert(lines_fold(s.take(i + 1)).0 == d.push(line@));
                    assert(lines_fold(s.take(i + 1)).0[d.len() as int] == line@);
                    assert(obj_lines(s)[d.len() as int] == lines_fold(s).0[d.len() as int]);
                    assert(line_indices_from_one(obj_lines(s)[d.len() as int]));
                    assert(d.push(line@).drop_last() =~= d);
                }
                parse_obj_line(&line, &mut out);
                line = Vec::new();
            } else {
                line.push(c);
            }
            i = i + 1;
        }
        proof {
            assert(s.take(s.len() as int) =~= s);
            let d = lines_fold(s).0;
            assert(obj_lines(s)[d.len() as int] == line@);
            assert(line_indices_from_one(obj_lines(s)[d.len() as int]));
            assert(obj_lines(s).drop_last() =~= d);
        }
        parse_obj_line(&line, &mut out);
        out
    }

    /// Whether no face of the OBJ text `content` names vertex zero.
    pub fn obj_indices_from_one(content: &str) -> (r: bool)
        ensures
            r == indices_from_one(content@),
    {
        let cs = chars_of(content);
        let ghost s = content@;
        let mut line: Vec<char> = Vec::new();
        let mut i: usize = 0;
        while i < cs.len()
            invariant
                i <= cs@.len(),
                cs@ == s,
                s == content@,
                lines_fold(s.take(i as int)).1 == line@,
                forall|j: int| 0 <= j < lines_fold(s.take(i as int)).0.len()
                    ==> #[trigger] line_indices_from_one(lines_fold(s.take(i as int)).0[j]),
            decreases cs@.len() - i,
        {
            let c = cs[i];
            proof {
                assert(s.take(i + 1).drop_last() =~= s.take(i as int));
                assert(s.take(i + 1).last() == c);
            }
            if c == '\n' {
                let ghost d = lines_fold(s.take(i as int)).0;
                proof {
                    lemma_lines_prefix(s, i + 1);
                    assert(lines_fold(s.take(i + 1)).0 == d.push(line@));
                }
                if !line_from_one(&line) {
                    proof {
                        assert(lines_fold(s.take(i + 1)).0[d.len() as int] == line@);
                        assert(obj_lines(s)[d.len() as int] == lines_fold(s).0[d.len() as int]);
                        assert(!line_indices_from_one(obj_lines(s)[d.len() as int]));
                    }
                    return false;
                }
                proof {
                    assert forall|j: int| 0 <= j < d.push(line@).len()
                        implies #[trigger] line_indices_from_one(d.push(line@)[j]) by {
                        if j < d.len() {
                            assert(d.push(line@)[j] == d[j]);
                        }
                    }
                }
                line = Vec::new();
            } else {
                line.push(c);
            }
            i = i + 1;
        }
        proof {
            assert(s.take(s.len() as int) =~= s);
        }
        let last_ok = line_from_one(&line);
        proof {
            let d = lines_fold(s).0;
            let ls = obj_lines(s);
            assert(ls[d.len() as int] == line@);
            if last_ok {
                assert forall|j: int| 0 <= j < ls.len() implies #[trigger] line_indices_from_one(ls[j]) by {
                    if j < d.len() {
                        assert(ls[j] == d[j]);
                    }
                }
            } else {
                assert(!line_indices_from_one(ls[d.len() as int]));
            }
        }
        last_ok
    }

    /// The statements of the OBJ text `content`, as `parse_obj` reads them,
    /// or none if a face names vertex zero.
    pub fn parse_obj_checked(content: &str) -> (r: Option<Vec<ObjLine>>)
        ensures
            match r {
                Some(ls) => indices_from_one(content@) && records(ls@) == obj_records(content@),
                None => !indices_from_one(content@),
            },
    {
        if MeshLoader::obj_indices_from_one(content) {
            Some(MeshLoader::parse_obj(content))
        } else {
            None
        }
    }
}

} // verus!

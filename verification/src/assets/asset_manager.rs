//! The asset manager: loaders by file extension, the cache and the handle
//! identifiers. Loading runs in two steps: the manager says what to do with
//! a path (hand out the cached asset, or load the file with a loader), the
//! caller reads and decodes the file, and the manager records the outcome
//! and names the event to publish.
use std::sync::Arc;
use vstd::prelude::*;
use vstd::string::StringExecFns;
use crate::assets::asset_cache::{cache_inserted, read_counted, AssetCache, CacheStrategy};
use crate::assets::asset_handle::{arc_value, AssetHandle, AssetHandleManager};
use crate::assets::asset_loader::{path_extension, path_extension_of};
use crate::collections::{owned, same_text, StrMap};
use crate::events::{AssetLoadFailedEvent, AssetLoadedEvent, EngineEvent};
use crate::EngineError;

verus! {

/// The number of the texture loader.
pub const TEXTURE_LOADER: u64 = 0;
/// The number of the shader loader.
pub const SHADER_LOADER: u64 = 1;
/// The number of the material loader.
pub const MATERIAL_LOADER: u64 = 2;
/// The number of the mesh loader.
pub const MESH_LOADER: u64 = 3;

/// The lower-case form of a text, as `str::to_lowercase` makes it.
pub uninterp spec fn lowercase(s: Seq<char>) -> Seq<char>;

/// `str::to_lowercase`.
#[verifier::external_body]
fn to_lowercase(s: &str) -> (r: String)
    ensures
        r@ == lowercase(s@),
{
    s.to_lowercase()
}

/// `root` and `path` joined as `Path::join` joins them: an absolute path
/// stands alone; otherwise a slash goes between them unless the root is
/// empty or ends in one.
pub open spec fn joined(root: Seq<char>, path: Seq<char>) -> Seq<char> {
    if path.len() > 0 && path[0] == '/' {
        path
    } else if root.len() == 0 || root.last() == '/' {
        root + path
    } else {
        root + "/"@ + path
    }
}

/// Joins `root` and `path`.
pub fn join_path(root: &str, path: &str) -> (r: String)
    ensures
        r@ == joined(root@, path@),
{
    let cs = crate::text::chars_of(path);
    let rs = crate::text::chars_of(root);
    proof {
        reveal_strlit("/");
    }
    if cs.len() > 0 && cs[0] == '/' {
        return owned(path);
    }
    let mut r = owned(root);
    if rs.len() > 0 && rs[rs.len() - 1] != '/' {
        r.append("/");
    }
    r.append(path);
    r
}

/// What to do with a path.
#[verifier::reject_recursive_types(R)]
pub enum LoadStep<R> {
    /// The asset is cached: here is a new handle to it.
    Cached(AssetHandle<R>),
    /// Read `full_path` with the loader numbered `loader`, then report.
    Load { loader: u64, full_path: String },
    /// No loader takes the path.
    Failed(EngineError),
}

/// What reading and decoding a file gave.
#[verifier::reject_recursive_types(R)]
pub enum LoadOutcome<R> {
    /// The asset, the bytes it takes, and the name of its type.
    Loaded { resource: Arc<R>, size_bytes: usize, asset_type: String },
    /// The loader made an asset of another type than asked for; the name of the type asked for.
    WrongType { asset_type: String },
    /// The loader failed with this message.
    Failed { message: String },
}

/// The assets of the game.
#[verifier::reject_recursive_types(R)]
pub struct AssetManager<R> {
    loaders: StrMap<u64>,
    cache: AssetCache<R>,
    handle_manager: AssetHandleManager,
    asset_root: String,
    default_cache_strategy: CacheStrategy,
}

/// A handle handed out later has a higher identifier: every handle gets the
/// manager's next identifier, which then grows by one and never shrinks, so
/// a cached reload (handled by `begin_load` on a later manager) gets a higher
/// identifier than the first load of the same asset.
pub proof fn lemma_later_handle_id_higher<R>(
    first: AssetManager<R>,
    after_first: AssetManager<R>,
    later: AssetManager<R>,
    first_id: u64,
    later_id: u64,
)
    requires
        first_id == first.next_id(),
        after_first.next_id() == first.next_id() + 1,
        after_first.next_id() <= later.next_id(),
        later_id == later.next_id(),
    ensures
        first_id < later_id,
{
}

/// The extensions the manager knows from the start, with their loaders.
pub open spec fn default_loaders() -> Map<Seq<char>, u64> {
    Map::empty()
        .insert("png"@, TEXTURE_LOADER).insert("jpg"@, TEXTURE_LOADER).insert("jpeg"@, TEXTURE_LOADER)
        .insert("bmp"@, TEXTURE_LOADER).insert("tga"@, TEXTURE_LOADER)
        .insert("wgsl"@, SHADER_LOADER)
        .insert("obj"@, MESH_LOADER)
        .insert("json"@, MATERIAL_LOADER)
}

impl<R> AssetManager<R> {
    /// The loaders by extension.
    pub closed spec fn loader_map(&self) -> Map<Seq<char>, u64> {
        self.loaders.view()
    }

    /// The cache.
    pub closed spec fn spec_cache(&self) -> AssetCache<R> {
        self.cache
    }

    /// The folder paths are read from.
    pub closed spec fn root(&self) -> Seq<char> {
        self.asset_root@
    }

    /// The strategy new assets are cached with.
    pub closed spec fn strategy(&self) -> CacheStrategy {
        self.default_cache_strategy
    }

    /// The identifier the next handle gets.
    pub closed spec fn next_id(&self) -> u64 {
        self.handle_manager.spec_next_id()
    }

    /// The storage is consistent.
    pub closed spec fn wf(&self) -> bool {
        self.loaders.wf() && self.cache.wf()
    }

    /// Every cached asset can be read once more without its read count overflowing.
    pub closed spec fn reads_countable(&self) -> bool {
        forall|k: u64| #[trigger] self.cache.spec_entries().contains_key(k)
            ==> self.cache.spec_entries()[k].spec_access_count() < u64::MAX
    }

    /// A manager reading from `assets`, caching by reference count in a
    /// cache of `max_size_bytes` that cleans up above
    /// `cleanup_threshold_bytes`, with the default loaders.
    pub fn new(max_size_bytes: usize, cleanup_threshold_bytes: usize) -> (r: AssetManager<R>)
        ensures
            r.wf(),
            r.loader_map() == default_loaders(),
            r.root() == "assets"@,
            r.strategy() == CacheStrategy::RefCount,
            r.next_id() == 1,
            r.reads_countable(),
            r.spec_cache().spec_entries().len() == 0,
            r.spec_cache().spec_max_size() == max_size_bytes,
            r.spec_cache().spec_cleanup_threshold() == cleanup_threshold_bytes,
    {
        let mut m = AssetManager {
            loaders: StrMap::new(),
            cache: AssetCache::new(max_size_bytes, cleanup_threshold_bytes),
            handle_manager: AssetHandleManager::new(),
            asset_root: owned("assets"),
            default_cache_strategy: CacheStrategy::RefCount,
        };
        m.register_default_loaders();
        m
    }

    /// Adds the default loaders.
    fn register_default_loaders(&mut self)
        requires
            old(self).wf(),
        ensures
            final(self).wf(),
            final(self).loader_map() == old(self).loader_map()
                .insert("png"@, TEXTURE_LOADER).insert("jpg"@, TEXTURE_LOADER).insert("jpeg"@, TEXTURE_LOADER)
                .insert("bmp"@, TEXTURE_LOADER).insert("tga"@, TEXTURE_LOADER)
                .insert("wgsl"@, SHADER_LOADER)
                .insert("obj"@, MESH_LOADER)
                .insert("json"@, MATERIAL_LOADER),
            final(self).spec_cache() == old(self).spec_cache(),
            final(self).root() == old(self).root(),
            final(self).strategy() == old(self).strategy(),
            final(self).next_id() == old(self).next_id(),
    {
        self.register_loader("png", TEXTURE_LOADER);
        self.register_loader("jpg", TEXTURE_LOADER);
        self.register_loader("jpeg", TEXTURE_LOADER);
        self.register_loader("bmp", TEXTURE_LOADER);
        self.register_loader("tga", TEXTURE_LOADER);
        self.register_loader("wgsl", SHADER_LOADER);
        self.register_loader("obj", MESH_LOADER);
        self.register_loader("json", MATERIAL_LOADER);
    }

    /// Reads paths from `path` from now on.
    pub fn set_asset_root(&mut self, path: &str)
        ensures
            final(self).root() == path@,
            final(self).loader_map() == old(self).loader_map(),
            final(self).spec_cache() == old(self).spec_cache(),
            final(self).strategy() == old(self).strategy(),
            final(self).next_id() == old(self).next_id(),
            final(self).wf() == old(self).wf(),
    {
        self.asset_root = owned(path);
    }

    /// Caches new assets with `strategy` from now on.
    pub fn set_default_cache_strategy(&mut self, strategy: CacheStrategy)
        ensures
            final(self).strategy() == strategy,
            final(self).loader_map() == old(self).loader_map(),
            final(self).spec_cache() == old(self).spec_cache(),
            final(self).root() == old(self).root(),
            final(self).next_id() == old(self).next_id(),
            final(self).wf() == old(self).wf(),
    {
        self.default_cache_strategy = strategy;
    }

    /// Files with `extension` are read by the loader numbered `loader`.
    pub fn register_loader(&mut self, extension: &str, loader: u64)
        requires
            old(self).wf(),
        ensures
            final(self).wf(),
            final(self).loader_map() == old(self).loader_map().insert(extension@, loader),
            final(self).spec_cache() == old(self).spec_cache(),
            final(self).root() == old(self).root(),
            final(self).strategy() == old(self).strategy(),
            final(self).next_id() == old(self).next_id(),
    {
        self.loaders.insert(owned(extension), loader);
    }

    /// What to do with `path`: a cached asset gets a new handle (and its
    /// read is counted); otherwise the loader of the lower-cased extension
    /// of the joined path reads it; with no such loader, an asset error
    /// naming the extension.
    pub fn begin_load(&mut self, path: &str) -> (r: LoadStep<R>)
        requires
            old(self).wf(),
            old(self).next_id() < u64::MAX,
            old(self).reads_countable(),
        ensures
            final(self).wf(),
            final(self).loader_map() == old(self).loader_map(),
            final(self).root() == old(self).root(),
            final(self).strategy() == old(self).strategy(),
            ({
                let cache = old(self).spec_cache();
                let cached = cache.spec_paths().contains_key(path@)
                    && cache.spec_entries().contains_key(cache.spec_paths()[path@]);
                let ext = match path_extension_of(joined(old(self).root(), path@)) {
                    Some(e) => lowercase(e),
                    None => lowercase(Seq::empty()),
                };
                if cached {
                    let id = cache.spec_paths()[path@];
                    &&& r matches LoadStep::Cached(h) && h.spec_id() == old(self).next_id() && h.spec_path() == path@
                        && h.target() == arc_value(&cache.spec_entries()[id].spec_resource())
                    &&& final(self).next_id() == old(self).next_id() + 1
                    &&& read_counted(cache.spec_entries(), final(self).spec_cache().spec_entries(), id)
                    &&& final(self).spec_cache().spec_paths() == cache.spec_paths()
                    &&& final(self).spec_cache().spec_current_size() == cache.spec_current_size()
                } else {
                    &&& final(self).next_id() == old(self).next_id()
                    &&& final(self).spec_cache().spec_entries() == old(self).spec_cache().spec_entries()
                    &&& final(self).spec_cache().spec_paths() == old(self).spec_cache().spec_paths()
                    &&& final(self).spec_cache().spec_current_size() == old(self).spec_cache().spec_current_size()
                    &&& if old(self).loader_map().contains_key(ext) {
                        r matches LoadStep::Load { loader, full_path }
                            && loader == old(self).loader_map()[ext]
                            && full_path@ == joined(old(self).root(), path@)
                    } else {
                        r matches LoadStep::Failed(EngineError::AssetError(m))
                            && m@ == "没有找到扩展名 '"@ + ext + "' 的加载器"@
                    }
                }
            }),
    {
        match self.cache.get_by_path(path) {
            Some(resource) => {
                let id = self.handle_manager.generate_id();
                LoadStep::Cached(AssetHandle::new(id, &resource, path))
            },
            None => {
                let full_path = join_path(self.asset_root.as_str(), path);
                let ghost expected = match path_extension_of(joined(self.root(), path@)) {
                    Some(e) => lowercase(e),
                    None => lowercase(Seq::empty()),
                };
                let ext = match path_extension(full_path.as_str()) {
                    Some(e) => to_lowercase(e.as_str()),
                    None => {
                        proof {
                            reveal_strlit("");
                            assert(""@ =~= Seq::<char>::empty());
                        }
                        to_lowercase("")
                    },
                };
                proof {
                    assert(ext@ == expected);
                }
                match self.loaders.get(ext.as_str()) {
                    Some(loader) => LoadStep::Load { loader: *loader, full_path },
                    None => {
                        let mut m = owned("没有找到扩展名 '");
                        m.append(ext.as_str());
                        m.append("' 的加载器");
                        LoadStep::Failed(EngineError::AssetError(m))
                    },
                }
            },
        }
    }

    /// Records what loading `path` gave. A loaded asset is cached under a
    /// new identifier with the default strategy and its handle returned,
    /// with an asset-loaded event; otherwise an asset error (`资源类型不匹配:
    /// <type> -> unknown`, or the loader's message after `加载资源失败: ` in
    /// the event) with an asset-load-failed event.
    pub fn finish_load(&mut self, path: &str, outcome: LoadOutcome<R>) -> (r: (Result<AssetHandle<R>, EngineError>, EngineEvent))
        requires
            old(self).wf(),
            old(self).next_id() < u64::MAX,
            outcome matches LoadOutcome::Loaded { size_bytes, .. } ==> {
                let cache = old(self).spec_cache();
                cache.spec_current_size() - (if cache.spec_entries().contains_key(old(self).next_id()) {
                    cache.spec_entries()[old(self).next_id()].spec_size() as int
                } else {
                    0
                }) + size_bytes <= usize::MAX
            },
        ensures
            final(self).wf(),
            final(self).loader_map() == old(self).loader_map(),
            final(self).root() == old(self).root(),
            final(self).strategy() == old(self).strategy(),
            match outcome {
                LoadOutcome::Loaded { resource, size_bytes, asset_type } => {
                    &&& r.0 matches Ok(h) && h.spec_id() == old(self).next_id() && h.spec_path() == path@
                        && h.target() == arc_value(&resource)
                    &&& cache_inserted(old(self).spec_cache(), final(self).spec_cache(), old(self).next_id(),
                        resource, path@, asset_type@, old(self).strategy(), size_bytes)
                    &&& r.1 matches EngineEvent::AssetLoaded(e) && e.asset_path@ == path@ && e.asset_type@ == asset_type@
                    &&& final(self).next_id() == old(self).next_id() + 1
                },
                LoadOutcome::WrongType { asset_type } => {
                    &&& r.0 matches Err(EngineError::AssetError(m)) && m@ == "资源类型不匹配: "@ + asset_type@ + " -> unknown"@
                    &&& r.1 matches EngineEvent::AssetLoadFailed(e) && e.asset_path@ == path@
                        && e.error@ == "资源类型不匹配: "@ + asset_type@ + " -> unknown"@
                    &&& final(self).spec_cache() == old(self).spec_cache()
                    &&& final(self).next_id() == old(self).next_id()
                },
                LoadOutcome::Failed { message } => {
                    &&& r.0 matches Err(EngineError::AssetError(m)) && m@ == message@
                    &&& r.1 matches EngineEvent::AssetLoadFailed(e) && e.asset_path@ == path@
                        && e.error@ == "加载资源失败: "@ + message@
                    &&& final(self).spec_cache() == old(self).spec_cache()
                    &&& final(self).next_id() == old(self).next_id()
                },
            },
    {
        match outcome {
            LoadOutcome::Loaded { resource, size_bytes, asset_type } => {
                let id = self.handle_manager.generate_id();
                let handle = self.cache.insert(id, resource, path, asset_type.as_str(),
                    self.default_cache_strategy, size_bytes);
                let event = EngineEvent::AssetLoaded(AssetLoadedEvent {
                    asset_path: owned(path),
                    asset_type: asset_type,
                });
                (Ok(handle), event)
            },
            LoadOutcome::WrongType { asset_type } => {
                let mut m = owned("资源类型不匹配: ");
                m.append(asset_type.as_str());
                m.append(" -> unknown");
                let event = EngineEvent::AssetLoadFailed(AssetLoadFailedEvent {
                    asset_path: owned(path),
                    error: m.clone(),
                });
                (Err(EngineError::AssetError(m)), event)
            },
            LoadOutcome::Failed { message } => {
                let mut m = owned("加载资源失败: ");
                m.append(message.as_str());
                let event = EngineEvent::AssetLoadFailed(AssetLoadFailedEvent {
                    asset_path: owned(path),
                    error: m,
                });
                (Err(EngineError::AssetError(message)), event)
            },
        }
    }

    /// Whether `begin_load` may be called: another identifier can be handed
    /// out, and every cached asset can be read once more.
    pub fn can_load(&self) -> (r: bool)
        ensures
            r == (self.next_id() < u64::MAX && self.reads_countable()),
    {
        self.handle_manager.next_id() < u64::MAX && self.cache.reads_countable()
    }

    /// Whether `finish_load` may be called with a loaded asset of
    /// `size_bytes`: another identifier can be handed out, and the cache's
    /// total stays within `usize`.
    pub fn can_finish_load(&self, size_bytes: usize) -> (r: bool)
        requires
            self.wf(),
        ensures
            r == (self.next_id() < u64::MAX && {
                let cache = self.spec_cache();
                cache.spec_current_size() - (if cache.spec_entries().contains_key(self.next_id()) {
                    cache.spec_entries()[self.next_id()].spec_size() as int
                } else {
                    0
                }) + size_bytes <= usize::MAX
            }),
    {
        let id = self.handle_manager.next_id();
        if id == u64::MAX {
            return false;
        }
        let current = self.cache.total_size_bytes();
        let replaced = self.cache.entry_size_bytes(id);
        proof {
            self.cache.lemma_entry_within_total(id);
        }
        current - replaced <= usize::MAX - size_bytes
    }

    /// The cache's counts.
    pub fn cache_stats(&self) -> (r: crate::assets::asset_cache::CacheStats)
        requires
            self.wf(),
        ensures
            r.entry_count == self.spec_cache().spec_entries().len(),
            r.total_size_bytes == self.spec_cache().spec_current_size(),
            r.max_size_bytes == self.spec_cache().spec_max_size(),
            r.type_counts.wf(),
            forall|t: Seq<char>| #[trigger] r.type_counts.view().contains_key(t)
                <==> crate::assets::asset_cache::has_type(self.spec_cache().spec_entries(), t),
            forall|t: Seq<char>| #[trigger] r.type_counts.view().contains_key(t)
                ==> r.type_counts.view()[t] == crate::assets::asset_cache::type_count(self.spec_cache().spec_entries(), t),
    {
        self.cache.stats()
    }

    /// The paths of the cached assets, each once.
    pub fn loaded_assets(&self) -> (r: Vec<String>)
        requires
            self.wf(),
        ensures
            r@.map_values(|s: String| s@).no_duplicates(),
            forall|p: Seq<char>| self.spec_cache().spec_paths().contains_key(p)
                <==> r@.map_values(|s: String| s@).contains(p),
    {
        self.cache.cached_paths()
    }

    /// Looks the asset up by `path` (which counts as a read of it) and
    /// unloads nothing: the answer is always no.
    pub fn unload_by_path(&mut self, path: &str) -> (r: bool)
        requires
            old(self).wf(),
            old(self).reads_countable(),
        ensures
            !r,
            final(self).wf(),
            if old(self).spec_cache().spec_paths().contains_key(path@) && old(self).spec_cache().spec_entries()
                .contains_key(old(self).spec_cache().spec_paths()[path@]) {
                crate::assets::asset_cache::read_counted(old(self).spec_cache().spec_entries(),
                    final(self).spec_cache().spec_entries(), old(self).spec_cache().spec_paths()[path@])
            } else {
                final(self).spec_cache().spec_entries() == old(self).spec_cache().spec_entries()
            },
            final(self).spec_cache().spec_entries().dom() == old(self).spec_cache().spec_entries().dom(),
            final(self).spec_cache().spec_paths() == old(self).spec_cache().spec_paths(),
            final(self).spec_cache().spec_current_size() == old(self).spec_cache().spec_current_size(),
            final(self).loader_map() == old(self).loader_map(),
            final(self).root() == old(self).root(),
            final(self).strategy() == old(self).strategy(),
            final(self).next_id() == old(self).next_id(),
    {
        let _ = self.cache.get_by_path(path);
        false
    }

    /// Whether an asset is cached under `path`.
    pub fn is_loaded(&self, path: &str) -> (r: bool)
        requires
            self.wf(),
        ensures
            r == self.spec_cache().spec_paths().contains_key(path@),
    {
        self.cache.contains_path(path)
    }

    /// Drops the asset of `handle` from the cache; whether it was there.
    pub fn unload(&mut self, handle: &AssetHandle<R>) -> (r: bool)
        requires
            old(self).wf(),
        ensures
            final(self).wf(),
            r == old(self).spec_cache().spec_entries().contains_key(handle.spec_id()),
            final(self).spec_cache().spec_entries() == old(self).spec_cache().spec_entries().remove(handle.spec_id()),
            final(self).loader_map() == old(self).loader_map(),
            final(self).next_id() == old(self).next_id(),
    {
        self.cache.remove(handle.id())
    }

    /// Drops the cached assets a cleanup may drop; how many went. Which
    /// `LRU` and `RefCount` assets go depends on the time and on the
    /// references held elsewhere.
    pub fn cleanup(&mut self) -> (r: usize)
        requires
            old(self).wf(),
        ensures
            final(self).wf(),
            crate::assets::asset_cache::cleaned_by_rule(old(self).spec_cache().spec_entries(),
                final(self).spec_cache().spec_entries()),
            crate::assets::asset_cache::cleaned_from(old(self).spec_cache().spec_entries(),
                final(self).spec_cache().spec_entries()),
            final(self).spec_cache().spec_paths() == crate::assets::asset_cache::paths_after_cleanup(
                old(self).spec_cache().spec_paths(), old(self).spec_cache().spec_entries(),
                final(self).spec_cache().spec_entries()),
            r == old(self).spec_cache().spec_entries().len() - final(self).spec_cache().spec_entries().len(),
            final(self).root() == old(self).root(),
            final(self).strategy() == old(self).strategy(),
            final(self).loader_map() == old(self).loader_map(),
            final(self).next_id() == old(self).next_id(),
    {
        self.cache.cleanup()
    }

    /// Drops every cached asset.
    pub fn clear_cache(&mut self)
        requires
            old(self).wf(),
        ensures
            final(self).wf(),
            final(self).spec_cache().spec_entries().len() == 0,
            final(self).spec_cache().spec_current_size() == 0,
            final(self).loader_map() == old(self).loader_map(),
            final(self).next_id() == old(self).next_id(),
    {
        self.cache.clear();
    }
}

/// The extension of `path`, lower-cased; the empty text when it has none.
pub open spec fn lowered_extension(path: Seq<char>) -> Seq<char> {
    match path_extension_of(path) {
        Some(e) => lowercase(e),
        None => lowercase(Seq::empty()),
    }
}

/// The loader a batch load picks for the lower-cased extension `ext`.
pub open spec fn batch_loader_of(ext: Seq<char>) -> Option<u64> {
    if ext == "png"@ || ext == "jpg"@ || ext == "jpeg"@ || ext == "bmp"@ || ext == "tga"@ {
        Some(TEXTURE_LOADER)
    } else if ext == "wgsl"@ {
        Some(SHADER_LOADER)
    } else if ext == "obj"@ {
        Some(MESH_LOADER)
    } else if ext == "json"@ {
        Some(MATERIAL_LOADER)
    } else {
        None
    }
}

/// Which loader a batch load uses for `path`, by the lower-cased extension
/// of the path: textures, shaders, meshes and materials by their usual
/// extensions, or an asset error naming the extension.
pub fn batch_loader(path: &str) -> (r: Result<u64, EngineError>)
    ensures
        ({
            let ext = lowered_extension(path@);
            match batch_loader_of(ext) {
                Some(l) => r == Ok::<u64, EngineError>(l),
                None => r matches Err(EngineError::AssetError(m)) && m@ == "未知的文件类型: "@ + ext,
            }
        }),
{
    let ext = match path_extension(path) {
        Some(e) => to_lowercase(e.as_str()),
        None => {
            proof {
                reveal_strlit("");
                assert(""@ =~= Seq::<char>::empty());
            }
            to_lowercase("")
        },
    };
    proof {
        reveal_strlit("png");
        reveal_strlit("jpg");
        reveal_strlit("jpeg");
        reveal_strlit("bmp");
        reveal_strlit("tga");
        reveal_strlit("wgsl");
        reveal_strlit("obj");
        reveal_strlit("json");
    }
    let e = ext.as_str();
    proof {
        assert(ext@ == lowered_extension(path@));
    }
    if same_text(e, "png") || same_text(e, "jpg") || same_text(e, "jpeg") || same_text(e, "bmp") || same_text(e, "tga") {
        Ok(TEXTURE_LOADER)
    } else if same_text(e, "wgsl") {
        Ok(SHADER_LOADER)
    } else if same_text(e, "obj") {
        Ok(MESH_LOADER)
    } else if same_text(e, "json") {
        Ok(MATERIAL_LOADER)
    } else {
        let mut m = owned("未知的文件类型: ");
        m.append(e);
        Err(EngineError::AssetError(m))
    }
}

} // verus!

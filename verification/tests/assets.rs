use std::collections::HashMap;
use std::sync::Arc;

use sanji_engine::assets::asset_cache::{should_cleanup_with, AssetCache, CacheStrategy};
use sanji_engine::assets::asset_handle::{AssetHandle, AssetHandleManager};
use sanji_engine::assets::asset_loader::{
    path_extension, AssetLoaderRegistry, AudioLoader, MeshLoader, ObjLine, ShaderLoader, TextureLoader,
};
use sanji_engine::assets::asset_manager::{
    batch_loader, join_path, AssetManager, LoadOutcome, LoadStep, MATERIAL_LOADER, MESH_LOADER, SHADER_LOADER,
    TEXTURE_LOADER,
};
use sanji_engine::events::EngineEvent;
use sanji_engine::EngineError;

fn asset_error(r: Result<usize, EngineError>) -> String {
    match r {
        Err(EngineError::AssetError(m)) => m,
        _ => panic!("expected an asset error"),
    }
}

#[test]
fn cleanup_rule_per_strategy() {
    assert!(!should_cleanup_with(CacheStrategy::Permanent, 100_000, 1));
    assert!(!should_cleanup_with(CacheStrategy::LRU, 300, 1));
    assert!(should_cleanup_with(CacheStrategy::LRU, 301, 5));
    assert!(should_cleanup_with(CacheStrategy::RefCount, 0, 1));
    assert!(!should_cleanup_with(CacheStrategy::RefCount, 1000, 2));
}

#[test]
fn cache_reads_back_what_was_inserted() {
    let mut cache: AssetCache<String> = AssetCache::new(1000, 1000);
    let r = Arc::new("tex".to_string());
    let h = cache.insert(7, r.clone(), "a.png", "Texture", CacheStrategy::Permanent, 100);
    assert_eq!(h.id(), 7);
    assert_eq!(h.path(), "a.png");
    assert!(cache.contains(7));
    assert!(cache.contains_path("a.png"));
    assert_eq!(cache.total_size_bytes(), 100);
    assert_eq!(cache.entry_count(), 1);
    assert_eq!(*cache.get(7).unwrap(), "tex");
    assert_eq!(*cache.get_by_path("a.png").unwrap(), "tex");
    assert!(cache.get(8).is_none());
    assert_eq!(cache.cached_paths(), vec!["a.png".to_string()]);
    assert_eq!(cache.ids_of_type("Texture"), vec![7]);
    assert!(cache.ids_of_type("Mesh").is_empty());
    assert_eq!(cache.get_all_of_type("Texture").len(), 1);
    assert_eq!(cache.max_size_bytes(), 1000);
}

#[test]
fn cache_remove_and_clear() {
    let mut cache: AssetCache<u32> = AssetCache::new(1000, 1000);
    cache.insert(1, Arc::new(1), "one", "u32", CacheStrategy::Permanent, 10);
    cache.insert(2, Arc::new(2), "two", "u32", CacheStrategy::Permanent, 20);
    assert_eq!(cache.total_size_bytes(), 30);
    assert!(cache.remove(1));
    assert!(!cache.remove(1));
    assert_eq!(cache.total_size_bytes(), 20);
    assert!(!cache.contains_path("one"));
    cache.clear();
    assert_eq!(cache.entry_count(), 0);
    assert_eq!(cache.total_size_bytes(), 0);
}

#[test]
fn cleanup_drops_only_unshared_refcounted_entries() {
    let mut cache: AssetCache<u32> = AssetCache::new(1000, 1000);
    let kept = Arc::new(5);
    cache.insert(1, kept.clone(), "kept", "u32", CacheStrategy::RefCount, 10);
    cache.insert(2, Arc::new(6), "alone", "u32", CacheStrategy::RefCount, 10);
    cache.insert(3, Arc::new(7), "perm", "u32", CacheStrategy::Permanent, 10);
    assert_eq!(cache.cleanup(), 1);
    assert!(cache.contains(1));
    assert!(!cache.contains(2));
    assert!(cache.contains(3));
    assert_eq!(cache.total_size_bytes(), 20);
}

#[test]
fn handles_get_fresh_ids() {
    let mut m = AssetHandleManager::new();
    assert_eq!(m.generate_id(), 1);
    assert_eq!(m.generate_id(), 2);
    let h = m.create_handle(Arc::new(3u8), "x.bin");
    assert_eq!(h.id(), 3);
    assert_eq!(h.path(), "x.bin");
    let res = Arc::new(4u8);
    let u = m.create_untyped_handle(res.clone(), "y.bin", "u8");
    assert_eq!(u.id(), 4);
    assert_eq!(u.asset_type_name(), "u8");
    assert!(u.typed::<u8>().is_some());
    assert!(u.typed::<u16>().is_none());
    let same: AssetHandle<u8> = AssetHandle::new(3, &Arc::new(9u8), "z");
    assert!(h == same);
}

#[test]
fn path_extensions() {
    assert_eq!(path_extension("textures/wall.PNG"), Some("PNG".to_string()));
    assert_eq!(path_extension("a/b.tar.gz"), Some("gz".to_string()));
    assert_eq!(path_extension(".hidden"), None);
    assert_eq!(path_extension("noext"), None);
    assert_eq!(path_extension("dir.d/"), Some("d".to_string()));
    assert_eq!(path_extension("a/.."), None);
}

#[test]
fn registry_resolves_by_first_loader() {
    let mut reg = AssetLoaderRegistry::new();
    assert_eq!(reg.register(TextureLoader, "Texture"), 0);
    assert_eq!(reg.register(ShaderLoader, "Shader"), 1);
    assert_eq!(reg.register(MeshLoader, "Mesh"), 2);
    assert_eq!(reg.register(AudioLoader, "AudioClip"), 3);
    assert_eq!(reg.find_loader("glsl"), Some(1));
    assert_eq!(reg.find_loader("txt"), None);
    assert_eq!(reg.resolve("m/cube.obj").ok(), Some(2));
    assert_eq!(asset_error(reg.resolve("README")), "文件没有扩展名");
    assert_eq!(asset_error(reg.resolve("notes.txt")), "不支持的文件格式: txt");
    let exts = reg.supported_extensions();
    assert_eq!(exts.len(), 7 + 3 + 4 + 4);
    assert_eq!(exts[0], "png");
    assert_eq!(exts[17], "flac");
}

#[test]
fn obj_statements() {
    let text = "# cube\nv 1.0 2.0 3.0\r\nvn 0 1 0\nvt 0.5 0.25\nf 1/1/1 2//2 3\nf 1 2\nusemtl x\nv 4 5 6";
    let lines = MeshLoader::parse_obj(text);
    assert_eq!(lines.len(), 5);
    match &lines[0] {
        ObjLine::Position { x, y, z } => assert_eq!((x.as_str(), y.as_str(), z.as_str()), ("1.0", "2.0", "3.0")),
        _ => panic!("position expected"),
    }
    assert!(matches!(&lines[1], ObjLine::Normal { x, y, z } if x == "0" && y == "1" && z == "0"));
    assert!(matches!(&lines[2], ObjLine::TexCoord { u, v } if u == "0.5" && v == "0.25"));
    assert!(matches!(&lines[3], ObjLine::Face { indices } if indices == &vec![0, 1, 2]));
    assert!(matches!(&lines[4], ObjLine::Position { x, .. } if x == "4"));
}

#[test]
fn obj_face_skips_vertices_without_number() {
    let lines = MeshLoader::parse_obj("f a/1 +2 3 4\n");
    assert_eq!(lines.len(), 1);
    assert!(matches!(&lines[0], ObjLine::Face { indices } if indices == &vec![1, 2]));
}

#[test]
fn joining_paths() {
    assert_eq!(join_path("assets", "a.png"), "assets/a.png");
    assert_eq!(join_path("assets/", "a.png"), "assets/a.png");
    assert_eq!(join_path("", "a.png"), "a.png");
    assert_eq!(join_path("assets", "/abs/a.png"), "/abs/a.png");
}

#[test]
fn batch_loader_picks_by_lowercased_extension() {
    assert_eq!(batch_loader("a/B.PNG").ok(), Some(TEXTURE_LOADER));
    assert_eq!(batch_loader("s.wgsl").ok(), Some(SHADER_LOADER));
    assert_eq!(batch_loader("m.Obj").ok(), Some(MESH_LOADER));
    assert_eq!(batch_loader("mat.json").ok(), Some(MATERIAL_LOADER));
    match batch_loader("sound.WAV") {
        Err(EngineError::AssetError(m)) => assert_eq!(m, "未知的文件类型: wav"),
        _ => panic!("asset error expected"),
    }
    match batch_loader("README") {
        Err(EngineError::AssetError(m)) => assert_eq!(m, "未知的文件类型: "),
        _ => panic!("asset error expected"),
    }
}

#[test]
fn manager_loads_in_two_steps() {
    let mut m: AssetManager<String> = AssetManager::new(1 << 20, 1 << 20);
    match m.begin_load("tex/Wall.PNG") {
        LoadStep::Load { loader, full_path } => {
            assert_eq!(loader, TEXTURE_LOADER);
            assert_eq!(full_path, "assets/tex/Wall.PNG");
        }
        _ => panic!("load expected"),
    }
    let (r, ev) = m.finish_load(
        "tex/Wall.PNG",
        LoadOutcome::Loaded { resource: Arc::new("pixels".to_string()), size_bytes: 64, asset_type: "Texture".to_string() },
    );
    let h = r.ok().unwrap();
    assert_eq!(h.id(), 1);
    assert_eq!(h.path(), "tex/Wall.PNG");
    assert!(matches!(ev, EngineEvent::AssetLoaded(e) if e.asset_path == "tex/Wall.PNG" && e.asset_type == "Texture"));
    assert!(m.is_loaded("tex/Wall.PNG"));
    match m.begin_load("tex/Wall.PNG") {
        LoadStep::Cached(h2) => {
            assert_eq!(h2.id(), 2);
            assert_eq!(h2.path(), "tex/Wall.PNG");
        }
        _ => panic!("cached expected"),
    }
    assert!(m.unload(&h));
    assert!(!m.is_loaded("tex/Wall.PNG"));
}

#[test]
fn manager_reports_missing_loader_and_failures() {
    let mut m: AssetManager<u8> = AssetManager::new(1000, 1000);
    match m.begin_load("song.ogg") {
        LoadStep::Failed(EngineError::AssetError(msg)) => assert_eq!(msg, "没有找到扩展名 'ogg' 的加载器"),
        _ => panic!("failure expected"),
    }
    m.register_loader("ogg", 9);
    assert!(matches!(m.begin_load("song.ogg"), LoadStep::Load { loader: 9, .. }));
    let (r, ev) = m.finish_load("song.ogg", LoadOutcome::WrongType { asset_type: "Song".to_string() });
    assert!(matches!(r, Err(EngineError::AssetError(ref e)) if e == "资源类型不匹配: Song -> unknown"));
    assert!(matches!(ev, EngineEvent::AssetLoadFailed(ref e) if e.error == "资源类型不匹配: Song -> unknown"));
    let (r, ev) = m.finish_load("song.ogg", LoadOutcome::Failed { message: "bad header".to_string() });
    assert!(matches!(r, Err(EngineError::AssetError(ref e)) if e == "bad header"));
    assert!(matches!(ev, EngineEvent::AssetLoadFailed(ref e) if e.asset_path == "song.ogg" && e.error == "加载资源失败: bad header"));
    m.set_asset_root("/data");
    assert!(matches!(m.begin_load("x.obj"), LoadStep::Load { loader, ref full_path } if loader == MESH_LOADER && full_path == "/data/x.obj"));
    m.set_default_cache_strategy(CacheStrategy::Permanent);
    assert_eq!(m.cleanup(), 0);
    m.clear_cache();
}

#[test]
fn obj_checked_parse_refuses_vertex_zero() {
    assert!(MeshLoader::obj_indices_from_one("f 1 2 3\nv 0 0 0"));
    assert!(!MeshLoader::obj_indices_from_one("v 1 1 1\nf 0 1 2\n"));
    assert!(!MeshLoader::obj_indices_from_one("f 1/2 2 0/4"));
    assert!(MeshLoader::obj_indices_from_one("f 0 1\n"));
    assert!(MeshLoader::parse_obj_checked("f 0 1 2").is_none());
    let ok = MeshLoader::parse_obj_checked("f 3 2 1\r\n").unwrap();
    assert!(matches!(&ok[0], ObjLine::Face { indices } if indices == &vec![2, 1, 0]));
}

#[test]
fn cache_statistics_by_type() {
    let mut cache: AssetCache<u8> = AssetCache::new(1000, 1000);
    cache.insert(1, Arc::new(1), "a.png", "Texture", CacheStrategy::Permanent, 10);
    cache.insert(2, Arc::new(2), "b.png", "Texture", CacheStrategy::Permanent, 20);
    cache.insert(3, Arc::new(3), "c.obj", "Mesh", CacheStrategy::Permanent, 30);
    let s = cache.stats();
    assert_eq!((s.entry_count, s.total_size_bytes, s.max_size_bytes), (3, 60, 1000));
    assert_eq!(s.type_counts.get("Texture"), Some(&2));
    assert_eq!(s.type_counts.get("Mesh"), Some(&1));
    assert_eq!(s.type_counts.get("Shader"), None);
    assert_eq!(s.type_counts.len(), 2);
    assert_eq!(s.most_common_type(), Some(("Texture".to_string(), 2)));
    let empty: AssetCache<u8> = AssetCache::new(10, 10);
    assert_eq!(empty.stats().most_common_type(), None);
}

#[test]
fn manager_lists_and_counts_its_assets() {
    let mut m: AssetManager<u8> = AssetManager::new(1000, 1000);
    assert!(m.can_load());
    assert!(m.can_finish_load(10));
    assert!(m.can_finish_load(usize::MAX));
    m.finish_load("a.json", LoadOutcome::Loaded { resource: Arc::new(1), size_bytes: 5, asset_type: "Material".to_string() });
    assert!(!m.can_finish_load(usize::MAX));
    assert!(m.can_finish_load(usize::MAX - 5));
    assert_eq!(m.loaded_assets(), vec!["a.json".to_string()]);
    let s = m.cache_stats();
    assert_eq!(s.entry_count, 1);
    assert_eq!(s.type_counts.get("Material"), Some(&1));
    assert!(!m.unload_by_path("a.json"));
    assert!(m.is_loaded("a.json"));
}

#[test]
fn handle_gives_back_its_asset_while_alive() {
    let r = Arc::new(7u8);
    let h = AssetHandle::new(1, &r, "p");
    assert!(Arc::ptr_eq(&h.get().unwrap(), &r));
    assert!(h.is_valid());
    drop(r);
    assert!(h.get().is_none());
    assert!(!h.is_valid());
}

#[test]
fn untyped_handle_gives_back_its_asset_as_its_type() {
    let mut m = AssetHandleManager::new();
    let r = Arc::new(5u32);
    let u = m.create_untyped_handle(r.clone(), "a.bin", "u32");
    let h = u.typed::<u32>().unwrap();
    assert_eq!(h.id(), u.id());
    assert!(Arc::ptr_eq(&h.get().unwrap(), &r));
    assert!(u.typed::<u8>().is_none());
    drop(h);
    drop(r);
    assert!(!u.is_valid());
    assert!(u.typed::<u32>().is_none());
}

#[test]
fn default_registry_has_builtin_loaders() {
    let reg = AssetLoaderRegistry::default();
    assert_eq!(reg.find_loader("png"), Some(0));
    assert_eq!(reg.find_loader("wgsl"), Some(1));
    assert_eq!(reg.find_loader("json"), Some(2));
    assert_eq!(reg.find_loader("obj"), Some(3));
    assert_eq!(reg.find_loader("wav"), Some(4));
    assert_eq!(reg.loader_asset_type(4), Some("AudioClip"));
    assert_eq!(reg.loader_asset_type(5), None);
}

#[test]
fn cached_load_hands_back_the_same_asset() {
    let mut m: AssetManager<u32> = AssetManager::new(1000, 800);
    let res = Arc::new(5u32);
    let (r, _) = m.finish_load(
        "a.json",
        LoadOutcome::Loaded { resource: res.clone(), size_bytes: 4, asset_type: "Material".to_string() },
    );
    let h1 = r.ok().unwrap();
    assert!(Arc::ptr_eq(&h1.get().unwrap(), &res));
    let before = m.loaded_assets();
    match m.begin_load("a.json") {
        LoadStep::Cached(h2) => {
            assert!(Arc::ptr_eq(&h2.get().unwrap(), &res));
            assert!(h2.id() > h1.id());
        }
        _ => panic!("cached expected"),
    }
    assert_eq!(m.loaded_assets(), before);
    assert_eq!(m.cache_stats().entry_count, 1);
}

#[test]
fn cleanup_with_follows_the_rule_on_what_was_observed() {
    let mut cache: AssetCache<u32> = AssetCache::new(1000, 1000);
    cache.insert(1, Arc::new(1), "keep", "u32", CacheStrategy::Permanent, 10);
    cache.insert(2, Arc::new(2), "idle", "u32", CacheStrategy::LRU, 10);
    cache.insert(3, Arc::new(3), "fresh", "u32", CacheStrategy::LRU, 10);
    cache.insert(4, Arc::new(4), "alone", "u32", CacheStrategy::RefCount, 10);
    cache.insert(5, Arc::new(5), "shared", "u32", CacheStrategy::RefCount, 10);
    cache.insert(6, Arc::new(6), "unseen", "u32", CacheStrategy::LRU, 10);
    let mut observed: HashMap<u64, (u64, usize)> = HashMap::new();
    observed.insert(1, (10_000, 1));
    observed.insert(2, (301, 2));
    observed.insert(3, (300, 1));
    observed.insert(4, (0, 1));
    observed.insert(5, (10_000, 2));
    assert_eq!(cache.cleanup_with(&observed), 2);
    assert!(cache.contains(1) && cache.contains(3) && cache.contains(5) && cache.contains(6));
    assert!(!cache.contains(2) && !cache.contains(4));
    assert!(!cache.contains_path("idle") && !cache.contains_path("alone"));
    assert_eq!(cache.total_size_bytes(), 40);
}

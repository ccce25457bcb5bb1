//! A game-engine core: asset bookkeeping, input state machines, event
//! queues, performance accounting and the other rules of the engine.
use vstd::prelude::*;
use vstd::string::StringExecFns;

pub mod collections;
pub mod text;
pub mod clock;
pub mod engine_core;
pub mod assets;
pub mod performance;
pub mod math;
pub mod input;
pub mod events;
pub mod ecs;
pub mod animation;
pub mod audio;
pub mod particles;

verus! {

#[verifier::external_type_specification]
#[verifier::external_body]
pub struct ExIoError(std::io::Error);

#[verifier::external_type_specification]
#[verifier::external_body]
pub struct ExJsonError(serde_json::Error);

/// The errors of the engine.
#[derive(Debug)]
pub enum EngineError {
    RenderError(String),
    AssetError(String),
    IoError(std::io::Error),
    SerializationError(serde_json::Error),
}

/// The text `Display` gives for an I/O error. Nothing is claimed of it.
#[verifier::external_body]
fn io_error_text(e: &std::io::Error) -> String {
    format!("{}", e)
}

/// The text `Display` gives for a JSON error. Nothing is claimed of it.
#[verifier::external_body]
fn json_error_text(e: &serde_json::Error) -> String {
    format!("{}", e)
}

/// The message of an error with a text: its prefix, then the text.
pub open spec fn error_message(prefix: Seq<char>, text: Seq<char>) -> Seq<char> {
    prefix + text
}

impl EngineError {
    /// The error's message: `渲染错误: `, `资源加载错误: `, `IO错误: ` or
    /// `序列化错误: `, then the error's own text.
    pub fn message(&self) -> (r: String)
        ensures
            self matches EngineError::RenderError(t) ==> r@ == error_message("渲染错误: "@, t@),
            self matches EngineError::AssetError(t) ==> r@ == error_message("资源加载错误: "@, t@),
            self is IoError ==> exists|t: Seq<char>| r@ == error_message("IO错误: "@, t),
            self is SerializationError ==> exists|t: Seq<char>| r@ == error_message("序列化错误: "@, t),
    {
        let (prefix, text) = match self {
            EngineError::RenderError(t) => (collections::owned("渲染错误: "), t.clone()),
            EngineError::AssetError(t) => (collections::owned("资源加载错误: "), t.clone()),
            EngineError::IoError(e) => (collections::owned("IO错误: "), io_error_text(e)),
            EngineError::SerializationError(e) => (collections::owned("序列化错误: "), json_error_text(e)),
        };
        let ghost tv = text@;
        let ghost pv = prefix@;
        let mut r = prefix;
        r.append(text.as_str());
        proof {
            assert(r@ == error_message(pv, tv));
        }
        r
    }
}

/// The window's settings.
#[derive(Debug, Clone)]
pub struct WindowConfig {
    pub title: String,
    pub width: u32,
    pub height: u32,
    pub vsync: bool,
    pub resizable: bool,
}

impl Default for WindowConfig {
    /// `Sanji Game Engine`, 1920 by 1080, vsync on, resizable.
    fn default() -> (r: WindowConfig)
        ensures
            r.title@ == "Sanji Game Engine"@,
            r.width == 1920 && r.height == 1080,
            r.vsync && r.resizable,
    {
        WindowConfig {
            title: collections::owned("Sanji Game Engine"),
            width: 1920,
            height: 1080,
            vsync: true,
            resizable: true,
        }
    }
}

/// The renderer's settings.
#[derive(Debug, Clone)]
pub struct RenderConfig {
    pub backend: String,
    pub msaa_samples: u32,
    pub max_texture_size: u32,
}

impl Default for RenderConfig {
    /// The `auto` backend, four samples, textures up to 8192.
    fn default() -> (r: RenderConfig)
        ensures
            r.backend@ == "auto"@,
            r.msaa_samples == 4,
            r.max_texture_size == 8192,
    {
        RenderConfig { backend: collections::owned("auto"), msaa_samples: 4, max_texture_size: 8192 }
    }
}

/// The asset settings.
#[derive(Debug, Clone)]
pub struct AssetConfig {
    pub asset_folder: String,
    pub cache_size: usize,
}

impl Default for AssetConfig {
    /// The `assets` folder and a 512 MiB cache.
    fn default() -> (r: AssetConfig)
        ensures
            r.asset_folder@ == "assets"@,
            r.cache_size == 1024 * 1024 * 512,
    {
        AssetConfig { asset_folder: collections::owned("assets"), cache_size: 536870912 }
    }
}

/// The engine's settings.
#[derive(Debug, Clone)]
pub struct EngineConfig {
    pub window: WindowConfig,
    pub render: RenderConfig,
    pub assets: AssetConfig,
}

impl Default for EngineConfig {
    /// The default window, renderer and asset settings.
    fn default() -> (r: EngineConfig)
        ensures
            r.window.title@ == "Sanji Game Engine"@,
            r.window.width == 1920 && r.window.height == 1080,
            r.window.vsync && r.window.resizable,
            r.render.backend@ == "auto"@,
            r.render.msaa_samples == 4,
            r.render.max_texture_size == 8192,
            r.assets.asset_folder@ == "assets"@,
            r.assets.cache_size == 1024 * 1024 * 512,
    {
        EngineConfig {
            window: WindowConfig::default(),
            render: RenderConfig::default(),
            assets: AssetConfig::default(),
        }
    }
}

} // verus!

//! Building an application: the game and the engine settings it runs with.
//! Running it opens the window and drives the frames, which is left to the
//! program.
use vstd::prelude::*;
use crate::{EngineConfig, WindowConfig};

verus! {

/// The settings a fresh `EngineConfig::default()` has, but for the window
/// title and size.
pub open spec fn default_but_window(c: EngineConfig) -> bool {
    &&& c.window.vsync && c.window.resizable
    &&& c.render.backend@ == "auto"@
    &&& c.render.msaa_samples == 4
    &&& c.render.max_texture_size == 8192
    &&& c.assets.asset_folder@ == "assets"@
    &&& c.assets.cache_size == 1024 * 1024 * 512
}

/// A game with the engine settings chosen for it so far, if any.
pub struct AppBuilder<T> {
    pub app: T,
    pub config: Option<EngineConfig>,
}

impl<T> AppBuilder<T> {
    /// The game `app`, with no settings chosen.
    pub fn new(app: T) -> (r: AppBuilder<T>)
        ensures
            r.app == app,
            r.config is None,
    {
        AppBuilder { app, config: None }
    }

    /// The same game with the settings `config`.
    pub fn with_config(self, config: EngineConfig) -> (r: AppBuilder<T>)
        ensures
            r.app == self.app,
            r.config == Some(config),
    {
        AppBuilder { app: self.app, config: Some(config) }
    }

    /// The same game with the window titled `title`: the settings chosen so
    /// far, or the default ones, otherwise unchanged.
    pub fn with_title(self, title: String) -> (r: AppBuilder<T>)
        ensures
            r.app == self.app,
            r.config matches Some(c) && c.window.title@ == title@,
            self.config matches Some(c0) ==> r.config matches Some(c) && c.window.width == c0.window.width
                && c.window.height == c0.window.height && c.window.vsync == c0.window.vsync
                && c.window.resizable == c0.window.resizable && c.render == c0.render && c.assets == c0.assets,
            self.config is None ==> (r.config matches Some(c) && default_but_window(c)
                && c.window.width == 1920 && c.window.height == 1080),
    {
        let mut config = match self.config {
            Some(c) => c,
            None => EngineConfig::default(),
        };
        config.window = WindowConfig { title, ..config.window };
        AppBuilder { app: self.app, config: Some(config) }
    }

    /// The same game with a `width` by `height` window: the settings chosen
    /// so far, or the default ones, otherwise unchanged.
    pub fn with_window_size(self, width: u32, height: u32) -> (r: AppBuilder<T>)
        ensures
            r.app == self.app,
            r.config matches Some(c) && c.window.width == width && c.window.height == height,
            self.config matches Some(c0) ==> r.config matches Some(c) && c.window.title == c0.window.title
                && c.window.vsync == c0.window.vsync && c.window.resizable == c0.window.resizable
                && c.render == c0.render && c.assets == c0.assets,
            self.config is None ==> (r.config matches Some(c) && default_but_window(c)
                && c.window.title@ == "Sanji Game Engine"@),
    {
        let mut config = match self.config {
            Some(c) => c,
            None => EngineConfig::default(),
        };
        config.window = WindowConfig { width, height, ..config.window };
        AppBuilder { app: self.app, config: Some(config) }
    }

    /// The settings to run with: those chosen, or else `app_config`, the
    /// game's own.
    pub fn resolved_config(self, app_config: EngineConfig) -> (r: (T, EngineConfig))
        ensures
            r.0 == self.app,
            r.1 == match self.config {
                Some(c) => c,
                None => app_config,
            },
    {
        match self.config {
            Some(c) => (self.app, c),
            None => (self.app, app_config),
        }
    }
}

} // verus!

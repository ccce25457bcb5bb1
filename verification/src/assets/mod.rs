//! Asset bookkeeping: handles, the asset cache and the loader registry.
pub mod weak_ref;
pub mod asset_handle;
pub mod asset_cache;
pub mod asset_loader;
pub mod asset_manager;

//! Preloading of every file under an asset root before an application enters
//! its main state.

pub mod status;
pub mod text;
pub mod normalize;
pub mod asset_paths;
pub mod codegen;
pub mod reading;
pub mod preload;
pub mod host;
pub mod plugin;

pub use asset_paths::load_asset_paths;
pub use codegen::{load_assets, wasm_load};
pub use plugin::AssetPreloadPlugin;

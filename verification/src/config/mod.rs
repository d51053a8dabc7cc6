pub mod settings;
pub mod paths;
pub mod model_paths;
pub mod local;

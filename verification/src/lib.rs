pub mod batch;
pub mod ecs;
pub mod editor;
pub mod export;
pub mod hierarchy;
pub mod idmap;
pub mod jobs;
pub mod json;
pub mod live_editor;
pub mod log;
pub mod mesh;
pub mod precision;
pub mod prompt;
pub mod scene;
pub mod scene_file;
pub mod templates;
pub mod text;
pub mod toolbar;

//! A verified core for a scene editor: a flat entity arena with selection,
//! reparenting, cloning and cascading despawn; the per-frame hierarchy tree
//! snapshot with drag/drop resolution; the reflection-driven component
//! inspector; the content-addressed asset registry; the staged project-load
//! state machine; the hot-reload script registry; and the project service's
//! persistence policies. Rendering, the widget toolkit, file and process
//! work live outside, handing the library plain values and taking plain
//! values back.

pub mod assets;
pub mod error;
pub mod hierarchy;
pub mod inspect;
pub mod load;
pub mod logs;
pub mod project;
pub mod savefmt;
pub mod scripts;
pub mod store;
pub mod tree;
pub mod ui;

//! Verified core of a small GPU rigid-body engine: the integer logic of
//! the broad and narrow phases, the block solver's contact bookkeeping,
//! mesh generation, draw batching and device selection.

pub mod contacts;
pub mod scene;
pub mod batch;
pub mod library;
pub mod mesh;
pub mod broadphase;
pub mod avbd;
pub mod gjk;
pub mod epa;
pub mod narrowphase;
pub mod vulkan;
pub mod ui;
pub mod input;
pub mod shader;

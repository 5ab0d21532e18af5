//! Binding plans for a graphics pipeline.
//!
//! Two independent parts. `descriptor_set` groups descriptor sets, answers
//! queries by set index and lists the resources that the sets refer to.
//! `vertex` matches a shader's input interface against the vertex types of
//! the vertex buffers that feed it, and sizes a draw from those buffers.

pub mod descriptor_set;
pub mod format;
pub mod resource;
pub mod vertex;

//! Target specifications: immutable descriptors that tell a code generator
//! and a linker how to build for one concrete target, assembled from a
//! platform family's base options and a sparse set of corrections.
pub mod error;
pub mod features;
pub mod options;
pub mod layout;
pub mod overrides;
pub mod target;

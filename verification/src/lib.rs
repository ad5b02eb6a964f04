//! A generic keyed resource cache: given a descriptor and a loader
//! capability, it returns a shared handle to the loaded resource, producing
//! each resource at most once per distinct descriptor value.

pub mod resources;

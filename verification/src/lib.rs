//! Verified core of a per-logical-CPU benchmark: command-line and CPU-list
//! parsing, processor topology decoding, feature inventories, sensor
//! arithmetic, the pointer-chasing permutation and the HTML report framing.
pub mod text;
pub mod cpu_list;
pub mod args;
pub mod chase;
pub mod affinity;
pub mod core_relations;
pub mod features;
pub mod sensors;
pub mod identity;
pub mod report;
pub mod timing;

//! Resource-control core: reconciles a fixed set of cgroup slices against a
//! declarative configuration, and supervises the helper agent that keeps it.
pub mod apply;
pub mod configlet;
pub mod graph;
pub mod iodetect;
pub mod jobs;
pub mod knob;
pub mod reconcile;
pub mod run;
pub mod unit;
pub mod slice;
pub mod text;

//! Capture, restore and validation of the writable layer of a container.
//!
//! An archive is a tar stream of two members, a manifest (`metadata.json`)
//! and a layer stream (`layer.tar`), with or without gzip framing. The layer
//! stream is the tree of the writable layer, packed in ascending order of
//! the paths; the manifest records where the layer came from and the
//! checksum of the tree. The library works on plain values throughout: the
//! tree is a list of entries, an archive is a byte string, and what the
//! container daemon says is the text it printed. Reading from and writing to
//! disk, and asking the daemon, is left to the caller.
//!
//! - [`tree`]: a directory tree as a list of entries, and the order of paths
//! - [`checksum`]: the checksum of a tree, and what it depends on
//! - [`archive`]: tar streams, bundles, gzip framing, paths that escape
//! - [`layer`]: packing a tree into a layer stream
//! - [`json`], [`docker`], [`locator`]: reading the daemon's answers, and
//!   finding the writable layer of a container
//! - [`commands`]: the three operations, export, import and check
//! - [`text`], [`paths`], [`utils`], [`types`]: text, paths, sizes, records

pub mod archive;
pub mod checksum;
pub mod commands;
pub mod docker;
pub mod json;
pub mod layer;
pub mod locator;
pub mod paths;
pub mod text;
pub mod tree;
pub mod types;
pub mod utils;

pub use commands::{CheckCommand, ExportCommand, ImportCommand};
pub use docker::DockerClient;
pub use types::{CheckOptions, ContainerMetadata, DockerInfo, ExportData};

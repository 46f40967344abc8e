//! Background task orchestration for a kernel and wine build front end:
//! the message protocol that workers report through, the decisions of the
//! process supervisor, the download and decompression pipeline, and the
//! freshness prober, together with the plain logic around them.

/// Tagged messages that tasks report, and the shape of a finished stream.
pub mod protocol;
/// Decisions of a process supervisor and its interactive input gate.
pub mod supervisor;
/// What a consumer does with the messages of a build or a clone.
pub mod consumer;
/// Byte accounting of streaming downloads.
pub mod download;
/// Decompression and hashing of downloaded payloads.
pub mod payload;
/// Kernel archive names, unpacked-directory resolution, size formatting.
pub mod kernel;
/// Freshness probes and the registry of downloaded patches.
pub mod freshness;
/// Version numbers, series and predecessors.
pub mod versions;
/// Tag and shortlog listings turned into versions and commits.
pub mod listing;
/// Line-preserving key/value configuration files.
pub mod config;
/// Where wine-tkg keeps its configuration.
pub mod wine_config;
/// Well-known patch sources.
pub mod catalog;
/// Directory layout, patch files and build log levels.
pub mod layout;
/// State of the front end's views.
pub mod tabs;
/// Path joining.
pub mod paths;
/// String predicates and conversions with their specifications.
pub mod text;

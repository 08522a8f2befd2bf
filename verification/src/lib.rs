//! The verified core of a signature-based filesystem scanner: the exclusion
//! filter and entry classification that feed the scan workers, the threat
//! record a run leaves behind, the signature-database header parser, and the
//! scheduler's arithmetic — preferred-hour windows, delay computation,
//! robust-sleep stepping and cycle gating. The process edges (filesystem
//! traversal, the engine itself, channels and threads, notifications, the
//! command line) live outside the library: they hand plain values in and take
//! plain values back.
pub mod args;
pub mod config;
pub mod db;
pub mod errors;
pub mod nice;
pub mod outside_types;
pub mod patterns;
pub mod scan;
pub mod schedule;

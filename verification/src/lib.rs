//! Filesystem-safety primitives for a container runtime: conversion between
//! host-absolute and container-relative path spaces, post-creation
//! verification of directory ownership and permissions, detection of paths
//! not backed by procfs, and lifecycle tracking for disposable directories.

pub mod env;
pub mod errors;
pub mod guarded_dir;
pub mod paths;
pub mod procfs;
pub mod temp_dir;

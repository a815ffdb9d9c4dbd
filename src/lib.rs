//! A decoder for the JVM class-file format, with a class-path resolver and a
//! caching, parent-delegating class loader built on top of it.

pub mod bytes;
pub mod items;
pub mod constant_pool;
pub mod attributes;
pub mod records;
pub mod stack_map;
pub mod annotation;
pub mod attribute;
pub mod class_file;
pub mod class_path_manager;
pub mod class_loader;

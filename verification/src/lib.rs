//! A small Java virtual machine: class file parsing and verification, the
//! runtime data model, the heap with its garbage collector, and the
//! semantics of the supported bytecode instructions.
pub mod class_file;
pub mod text;
pub mod class_parser;
pub mod bytecode;
pub mod class_verifier;
pub mod jvm_model;
pub mod jvm_heap;
pub mod class_hierarchy;
pub mod class_cache;
pub mod jvm_cache;
pub mod field_initialisation;
pub mod exceptions;
pub mod v_table;
pub mod native_method_resolver;
pub mod class_loader;
pub mod jvm;

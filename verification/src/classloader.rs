//! Loading of class files: parsing, attribute decoding and class creation.
pub mod signature_parser;
pub mod constant_pool;
pub mod raw;
pub mod file_parser;
pub mod attribute_parser;
pub mod class_creator;
pub mod cp_decoder;
pub mod loader;
pub mod opcode_parser;
pub mod descriptor_text;

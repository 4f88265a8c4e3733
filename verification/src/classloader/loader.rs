//! Loading a class from the bytes of its class file into the heap.
use vstd::prelude::*;

use crate::classloader::attribute_parser::{
    parse_attributes, spec_class_file_decoded, AttributeError, ClassFileModel,
};
use crate::classloader::class_creator::{
    class_built, class_loads, create_bytecode_class, ClassCreationError,
};
use crate::class::members::BytecodeClass;
use crate::classloader::file_parser::{parse, spec_class_file, ParseError};
use crate::heap::{bytecode_class_added, Heap};

verus! {

/// Why a class could not be loaded.
#[derive(Debug)]
pub enum LoadError {
    /// The bytes are not a class file.
    Parse(ParseError),
    /// An attribute is unknown or malformed.
    Attribute(AttributeError),
    /// The class cannot be built from the class file.
    Creation(ClassCreationError),
}

/// Whether the bytes of a class file can be loaded as a class.
pub open spec fn class_file_loads(content: Seq<u8>) -> bool {
    match spec_class_file(content) {
        Some(raw) => match spec_class_file_decoded(raw) {
            Some(cf) => class_loads(cf),
            None => false,
        },
        None => false,
    }
}

/// The class file that the bytes `content` hold, with its attributes decoded.
pub open spec fn loaded_file(content: Seq<u8>) -> ClassFileModel {
    spec_class_file_decoded(spec_class_file(content)->0)->0
}

/// Parses a class file, decodes its attributes, builds its class and adds it to the heap
/// (replacing a class with the same identifier). Returns the index of the class.
pub fn load_class(content: &[u8], heap: &mut Heap) -> (r: Result<usize, LoadError>)
    requires
        old(heap).wf(),
    ensures
        final(heap).wf(),
        r is Ok <==> class_file_loads(content@),
        r is Err ==> final(heap)@ == old(heap)@,
        r matches Ok(k) ==> exists|c: BytecodeClass|
            #[trigger] class_built(loaded_file(content@), c) && bytecode_class_added(
                old(heap)@,
                c,
                final(heap)@,
                k,
            ) && final(heap).classes@[k as int].methods == c.methods,
{
    let raw = match parse(content) {
        Ok(raw) => raw,
        Err(e) => return Err(LoadError::Parse(e)),
    };
    let class_file = match parse_attributes(raw) {
        Ok(c) => c,
        Err(e) => return Err(LoadError::Attribute(e)),
    };
    let class = match create_bytecode_class(&class_file) {
        Ok(c) => c,
        Err(e) => return Err(LoadError::Creation(e)),
    };
    let ghost built = class;
    let k = heap.add_bytecode_class(class);
    proof {
        assert(class_built(loaded_file(content@), built));
    }
    Ok(k)
}

} // verus!

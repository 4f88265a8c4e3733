//! Decoding of the attributes of a class file: code attributes and the known markers.
use vstd::prelude::*;

use crate::classloader::constant_pool::{cp_view, CpInfo, CpInfoModel};
use crate::classloader::file_parser::{
    fits, lemma_repeat_fail, lemma_repeat_step, parse_attributes_list, read_u16, read_u32,
    spec_attributes, spec_repeat, spec_u16, spec_u32, ParseError,
};
use crate::classloader::raw::{
    cp_entry_at, raw_attributes_view, RawAttributeInfo, RawAttributeInfoModel, RawClassFile,
    RawClassFileModel, RawMemberModel,
};
use crate::class::{parse_class_identifier, spec_class_identifier, ClassIdentifier, ClassIdentifierModel};
use crate::text::str_equal;

verus! {

/// One entry of a code attribute's exception table, with byte offsets into the code.
#[derive(Clone, Copy, PartialEq, Eq, Structural)]
pub struct ExceptionTableEntry {
    pub start_pc: u16,
    pub end_pc: u16,
    pub handler_pc: u16,
    pub catch_type: u16,
}

/// An attribute that may stand among the attributes of a code attribute.
#[derive(Clone, Copy, PartialEq, Eq, Structural)]
pub enum NestedAttribute {
    SourceFile,
    LineNumberTable,
    LocalVariableTable,
    Exceptions,
}

/// The content of a `Code` attribute.
pub struct CodeAttribute {
    pub max_stack: u16,
    pub max_locals: u16,
    pub code: Vec<u8>,
    pub exception_table: Vec<ExceptionTableEntry>,
    pub attributes: Vec<NestedAttribute>,
}

/// The abstract value of a [`CodeAttribute`].
pub struct CodeAttributeModel {
    pub max_stack: u16,
    pub max_locals: u16,
    pub code: Seq<u8>,
    pub exception_table: Seq<ExceptionTableEntry>,
    pub attributes: Seq<NestedAttribute>,
}

impl View for CodeAttribute {
    type V = CodeAttributeModel;

    open spec fn view(&self) -> CodeAttributeModel {
        CodeAttributeModel {
            max_stack: self.max_stack,
            max_locals: self.max_locals,
            code: self.code@,
            exception_table: self.exception_table@,
            attributes: self.attributes@,
        }
    }
}

/// A decoded attribute.
pub enum AttributeInfo {
    Code(CodeAttribute),
    SourceFile,
    LineNumberTable,
    LocalVariableTable,
    /// The classes of the exceptions that a method declares it may throw.
    Exceptions(Vec<ClassIdentifier>),
}

/// The abstract value of an [`AttributeInfo`].
pub enum AttributeInfoModel {
    Code(CodeAttributeModel),
    SourceFile,
    LineNumberTable,
    LocalVariableTable,
    Exceptions(Seq<ClassIdentifierModel>),
}

impl View for AttributeInfo {
    type V = AttributeInfoModel;

    open spec fn view(&self) -> AttributeInfoModel {
        match self {
            AttributeInfo::Code(c) => AttributeInfoModel::Code(c@),
            AttributeInfo::SourceFile => AttributeInfoModel::SourceFile,
            AttributeInfo::LineNumberTable => AttributeInfoModel::LineNumberTable,
            AttributeInfo::LocalVariableTable => AttributeInfoModel::LocalVariableTable,
            AttributeInfo::Exceptions(classes) => AttributeInfoModel::Exceptions(
                identifiers_view(classes@),
            ),
        }
    }
}

/// The abstract values of a list of attributes.
pub open spec fn attributes_view(v: Seq<AttributeInfo>) -> Seq<AttributeInfoModel> {
    v.map_values(|a: AttributeInfo| a@)
}

impl AttributeInfo {
    /// The content of a code attribute, if this is one.
    pub fn as_code_attribute(&self) -> (r: Option<&CodeAttribute>)
        ensures
            r is Some <==> self is Code,
            r matches Some(c) ==> *self == AttributeInfo::Code(*c),
    {
        if let AttributeInfo::Code(code_attribute) = self {
            Some(code_attribute)
        } else {
            None
        }
    }
}

/// Why the attributes of a class file could not be decoded.
#[derive(Debug)]
pub enum AttributeError {
    /// The attribute's name is none of the names this loader knows.
    UnknownAttribute(String),
    /// The name index does not point to a text constant, or a code attribute is malformed.
    Malformed,
}

/// The text constant at `index`, if there is one.
pub open spec fn cp_text(pool: Seq<CpInfoModel>, index: int) -> Option<Seq<char>> {
    match cp_entry_at(pool, index) {
        Some(CpInfoModel::UTF8INFO(s)) => Some(s),
        _ => None,
    }
}

/// The attribute that an attribute named `name` decodes to, for the known attributes whose
/// content this loader does not read.
pub open spec fn known_attribute(name: Seq<char>) -> Option<AttributeInfoModel> {
    if name == "SourceFile"@ {
        Some(AttributeInfoModel::SourceFile)
    } else if name == "LineNumberTable"@ {
        Some(AttributeInfoModel::LineNumberTable)
    } else if name == "LocalVariableTable"@ {
        Some(AttributeInfoModel::LocalVariableTable)
    } else {
        None
    }
}

/// The abstract values of a list of class identifiers.
pub open spec fn identifiers_view(v: Seq<ClassIdentifier>) -> Seq<ClassIdentifierModel> {
    v.map_values(|c: ClassIdentifier| c@)
}

/// The class that constant pool entry `index` names: a class entry whose name is a class
/// name.
pub open spec fn cp_class_identifier(pool: Seq<CpInfoModel>, index: int) -> Option<ClassIdentifierModel> {
    match cp_entry_at(pool, index) {
        Some(CpInfoModel::ClassInfo { name_index }) => match cp_text(pool, name_index as int) {
            Some(name) => spec_class_identifier(name),
            None => None,
        },
        _ => None,
    }
}

/// The first `k` classes that the content `s` of an `Exceptions` attribute lists: each a
/// two-byte constant pool reference after the two-byte count.
pub open spec fn exception_classes(pool: Seq<CpInfoModel>, s: Seq<u8>, k: nat) -> Option<Seq<ClassIdentifierModel>>
    decreases k,
{
    if k == 0 {
        Some(Seq::empty())
    } else {
        match exception_classes(pool, s, (k - 1) as nat) {
            Some(done) => if fits(s, 2 + 2 * (k - 1), 2) {
                match cp_class_identifier(pool, spec_u16(s, 2 + 2 * (k - 1)) as int) {
                    Some(c) => Some(done.push(c)),
                    None => None,
                }
            } else {
                None
            },
            None => None,
        }
    }
}

/// The classes that the content `s` of an `Exceptions` attribute lists; bytes after them
/// are ignored.
pub open spec fn spec_exceptions(pool: Seq<CpInfoModel>, s: Seq<u8>) -> Option<Seq<ClassIdentifierModel>> {
    if fits(s, 0, 2) {
        exception_classes(pool, s, spec_u16(s, 0) as nat)
    } else {
        None
    }
}

/// An exception table entry as a list item.
pub open spec fn exception_item(s: Seq<u8>) -> spec_fn(int) -> Option<(ExceptionTableEntry, int)> {
    |p: int|
        if fits(s, p, 8) {
            Some(
                (
                    ExceptionTableEntry {
                        start_pc: spec_u16(s, p),
                        end_pc: spec_u16(s, p + 2),
                        handler_pc: spec_u16(s, p + 4),
                        catch_type: spec_u16(s, p + 6),
                    },
                    p + 8,
                ),
            )
        } else {
            None
        }
}

/// The attribute that may stand inside a code attribute, decoded from its raw form.
pub open spec fn spec_nested_attribute(pool: Seq<CpInfoModel>, raw: RawAttributeInfoModel) -> Option<NestedAttribute> {
    match cp_text(pool, raw.attribute_name_index as int) {
        Some(name) => {
            if name == "SourceFile"@ {
                Some(NestedAttribute::SourceFile)
            } else if name == "LineNumberTable"@ {
                Some(NestedAttribute::LineNumberTable)
            } else if name == "LocalVariableTable"@ {
                Some(NestedAttribute::LocalVariableTable)
            } else if name == "Exceptions"@ {
                Some(NestedAttribute::Exceptions)
            } else {
                None
            }
        },
        None => None,
    }
}

/// The attributes inside a code attribute, decoded one by one.
pub open spec fn spec_nested_attributes(pool: Seq<CpInfoModel>, raws: Seq<RawAttributeInfoModel>) -> Option<Seq<NestedAttribute>>
    decreases raws.len(),
{
    if raws.len() == 0 {
        Some(Seq::empty())
    } else {
        match (spec_nested_attributes(pool, raws.drop_last()), spec_nested_attribute(pool, raws.last())) {
            (Some(done), Some(a)) => Some(done.push(a)),
            _ => None,
        }
    }
}

/// The index of the first nested attribute that cannot be decoded, if any.
pub open spec fn first_bad_nested(pool: Seq<CpInfoModel>, raws: Seq<RawAttributeInfoModel>) -> Option<int>
    decreases raws.len(),
{
    if raws.len() == 0 {
        None
    } else {
        match first_bad_nested(pool, raws.drop_last()) {
            Some(i) => Some(i),
            None => if spec_nested_attribute(pool, raws.last()) is None {
                Some(raws.len() - 1)
            } else {
                None
            },
        }
    }
}

/// The raw nested attributes of a code attribute, when its bytes have the layout of one.
pub open spec fn spec_code_raws(s: Seq<u8>) -> Option<Seq<RawAttributeInfoModel>> {
    if !(fits(s, 0, 8) && fits(s, 8, spec_u32(s, 4) as int)) {
        None
    } else {
        let p = 8 + spec_u32(s, 4);
        if !fits(s, p, 2) {
            None
        } else {
            match spec_repeat(exception_item(s), p + 2, spec_u16(s, p) as nat) {
                None => None,
                Some((table, p2)) => match spec_attributes(s, p2) {
                    None => None,
                    Some((raws, _)) => Some(raws),
                },
            }
        }
    }
}

/// The name of the first nested attribute of a code attribute that is a text but none of
/// the names this loader knows, when the attribute is otherwise well formed up to it.
pub open spec fn unknown_in_code(pool: Seq<CpInfoModel>, s: Seq<u8>) -> Option<Seq<char>> {
    match spec_code_raws(s) {
        Some(raws) => match first_bad_nested(pool, raws) {
            Some(i) => cp_text(pool, raws[i].attribute_name_index as int),
            None => None,
        },
        None => None,
    }
}

/// The attribute name that decoding `raw` reports as unknown: its own, or that of an
/// unknown attribute inside a code attribute.
pub open spec fn unknown_attribute_name(pool: Seq<CpInfoModel>, raw: RawAttributeInfoModel) -> Option<Seq<char>> {
    match cp_text(pool, raw.attribute_name_index as int) {
        Some(name) => if name == "Code"@ {
            unknown_in_code(pool, raw.info)
        } else if name != "Exceptions"@ && known_attribute(name) is None {
            Some(name)
        } else {
            None
        },
        None => None,
    }
}

/// The content of a code attribute, decoded from its bytes; bytes after its nested
/// attributes are ignored.
pub open spec fn spec_code_attribute(pool: Seq<CpInfoModel>, s: Seq<u8>) -> Option<CodeAttributeModel> {
    if !(fits(s, 0, 8) && fits(s, 8, spec_u32(s, 4) as int)) {
        None
    } else {
        let p = 8 + spec_u32(s, 4);
        if !fits(s, p, 2) {
            None
        } else {
            match spec_repeat(exception_item(s), p + 2, spec_u16(s, p) as nat) {
                None => None,
                Some((table, p2)) => match spec_attributes(s, p2) {
                    None => None,
                    Some((raws, _)) => match spec_nested_attributes(pool, raws) {
                        None => None,
                        Some(attributes) => Some(
                            CodeAttributeModel {
                                max_stack: spec_u16(s, 0),
                                max_locals: spec_u16(s, 2),
                                code: s.subrange(8, p),
                                exception_table: table,
                                attributes,
                            },
                        ),
                    },
                },
            }
        }
    }
}

/// A raw attribute decoded with the constant pool `pool`.
pub open spec fn spec_attribute_info(pool: Seq<CpInfoModel>, raw: RawAttributeInfoModel) -> Option<AttributeInfoModel> {
    match cp_text(pool, raw.attribute_name_index as int) {
        Some(name) => {
            if name == "Code"@ {
                match spec_code_attribute(pool, raw.info) {
                    Some(c) => Some(AttributeInfoModel::Code(c)),
                    None => None,
                }
            } else if name == "Exceptions"@ {
                match spec_exceptions(pool, raw.info) {
                    Some(classes) => Some(AttributeInfoModel::Exceptions(classes)),
                    None => None,
                }
            } else {
                known_attribute(name)
            }
        },
        None => None,
    }
}

/// A list of raw attributes decoded with the constant pool `pool`.
pub open spec fn spec_attribute_infos(pool: Seq<CpInfoModel>, raws: Seq<RawAttributeInfoModel>) -> Option<Seq<AttributeInfoModel>>
    decreases raws.len(),
{
    if raws.len() == 0 {
        Some(Seq::empty())
    } else {
        match (spec_attribute_infos(pool, raws.drop_last()), spec_attribute_info(pool, raws.last())) {
            (Some(done), Some(a)) => Some(done.push(a)),
            _ => None,
        }
    }
}

fn attribute_name<'a>(pool: &'a Vec<CpInfo>, index: u16) -> (r: Option<&'a str>)
    ensures
        r is Some <==> cp_text(cp_view(pool@), index as int) is Some,
        r matches Some(s) ==> cp_text(cp_view(pool@), index as int) == Some(s@),
{
    if index >= 1 && ((index - 1) as usize) < pool.len() {
        pool[(index - 1) as usize].as_utf8_info()
    } else {
        None
    }
}

fn parse_exception_table(b: &[u8], pos: usize) -> (r: Result<(Vec<ExceptionTableEntry>, usize), ParseError>)
    ensures
        r is Ok <==> (fits(b@, pos as int, 2) && spec_repeat(
            exception_item(b@),
            pos + 2,
            spec_u16(b@, pos as int) as nat,
        ) is Some),
        r matches Ok((v, q)) ==> spec_repeat(
            exception_item(b@),
            pos + 2,
            spec_u16(b@, pos as int) as nat,
        ) == Some((v@, q as int)),
{
    let (count, start) = read_u16(b, pos)?;
    let ghost item = exception_item(b@);
    let mut v: Vec<ExceptionTableEntry> = Vec::new();
    let mut p = start;
    let mut i: u16 = 0;
    assert(v@ + Seq::<ExceptionTableEntry>::empty() =~= Seq::<ExceptionTableEntry>::empty());
    while i < count
        invariant
            i <= count,
            fits(b@, pos as int, 2),
            count == spec_u16(b@, pos as int),
            start == pos + 2,
            item == exception_item(b@),
            spec_repeat(item, start as int, count as nat) == match spec_repeat(
                item,
                p as int,
                (count - i) as nat,
            ) {
                Some((rest, e)) => Some((v@ + rest, e)),
                None => None,
            },
        decreases count - i,
    {
        if !(p < b.len() && b.len() - p >= 8) {
            proof {
                assert(item(p as int) is None);
                lemma_repeat_fail(item, p as int, (count - i) as nat);
            }
            return Err(ParseError::InvalidClassFile);
        }
        let (start_pc, p1) = read_u16(b, p)?;
        let (end_pc, p2) = read_u16(b, p1)?;
        let (handler_pc, p3) = read_u16(b, p2)?;
        let (catch_type, q) = read_u16(b, p3)?;
        let e = ExceptionTableEntry { start_pc, end_pc, handler_pc, catch_type };
        proof {
            lemma_repeat_step(item, p as int, (count - i) as nat, v@, e, q as int);
        }
        v.push(e);
        p = q;
        i = i + 1;
    }
    assert(v@ + Seq::<ExceptionTableEntry>::empty() =~= v@);
    Ok((v, p))
}

fn parse_nested_attributes(pool: &Vec<CpInfo>, raws: &Vec<RawAttributeInfo>) -> (r: Result<Vec<NestedAttribute>, AttributeError>)
    ensures
        r is Ok <==> spec_nested_attributes(cp_view(pool@), raw_attributes_view(raws@)) is Some,
        r matches Ok(v) ==> spec_nested_attributes(cp_view(pool@), raw_attributes_view(raws@))
            == Some(v@),
        r is Err ==> first_bad_nested(cp_view(pool@), raw_attributes_view(raws@)) is Some,
        r matches Err(e) ==> {
            let i = first_bad_nested(cp_view(pool@), raw_attributes_view(raws@))->0;
            let name = cp_text(cp_view(pool@), raw_attributes_view(raws@)[i].attribute_name_index as int);
            &&& (e is UnknownAttribute <==> name is Some)
            &&& e matches AttributeError::UnknownAttribute(n) ==> name == Some(n@)
        },
{
    let ghost pv = cp_view(pool@);
    let ghost rv = raw_attributes_view(raws@);
    let mut v: Vec<NestedAttribute> = Vec::new();
    let mut i: usize = 0;
    assert(rv.take(0) =~= Seq::<RawAttributeInfoModel>::empty());
    while i < raws.len()
        invariant
            i <= raws.len(),
            pv == cp_view(pool@),
            rv == raw_attributes_view(raws@),
            spec_nested_attributes(pv, rv.take(i as int)) == Some(v@),
            first_bad_nested(pv, rv.take(i as int)) is None,
        decreases raws.len() - i,
    {
        assert(rv.take(i + 1).drop_last() =~= rv.take(i as int));
        assert(rv.take(i + 1).last() == raws@[i as int]@);
        let name = match attribute_name(pool, raws[i].attribute_name_index) {
            Some(n) => n,
            None => {
                proof {
                    lemma_nested_prefix_fails(pv, rv, i as int + 1);
                    lemma_first_bad_kept(pv, rv, i as int + 1);
                }
                return Err(AttributeError::Malformed);
            },
        };
        let a = if str_equal(name, "SourceFile") {
            NestedAttribute::SourceFile
        } else if str_equal(name, "LineNumberTable") {
            NestedAttribute::LineNumberTable
        } else if str_equal(name, "LocalVariableTable") {
            NestedAttribute::LocalVariableTable
        } else if str_equal(name, "Exceptions") {
            NestedAttribute::Exceptions
        } else {
            proof {
                lemma_nested_prefix_fails(pv, rv, i as int + 1);
                lemma_first_bad_kept(pv, rv, i as int + 1);
            }
            return Err(AttributeError::UnknownAttribute(name.to_owned()));
        };
        v.push(a);
        i = i + 1;
    }
    assert(rv.take(raws.len() as int) =~= rv);
    Ok(v)
}

/// The first nested attribute that cannot be decoded in a prefix is the first one in the
/// whole list.
proof fn lemma_first_bad_kept(pool: Seq<CpInfoModel>, raws: Seq<RawAttributeInfoModel>, i: int)
    requires
        0 < i <= raws.len(),
        first_bad_nested(pool, raws.take(i)) is Some,
    ensures
        first_bad_nested(pool, raws) == first_bad_nested(pool, raws.take(i)),
        0 <= first_bad_nested(pool, raws)->0 < i,
    decreases raws.len() - i,
{
    lemma_first_bad_bounds(pool, raws.take(i));
    if i < raws.len() {
        assert(raws.take(i + 1).drop_last() =~= raws.take(i));
        lemma_first_bad_kept(pool, raws, i + 1);
    } else {
        assert(raws.take(i) =~= raws);
    }
}

/// The first nested attribute that cannot be decoded lies within the list.
proof fn lemma_first_bad_bounds(pool: Seq<CpInfoModel>, raws: Seq<RawAttributeInfoModel>)
    ensures
        first_bad_nested(pool, raws) matches Some(i) ==> 0 <= i < raws.len(),
    decreases raws.len(),
{
    if raws.len() > 0 {
        lemma_first_bad_bounds(pool, raws.drop_last());
    }
}

/// When a prefix of the nested attributes cannot be decoded, neither can the whole list.
proof fn lemma_nested_prefix_fails(pool: Seq<CpInfoModel>, raws: Seq<RawAttributeInfoModel>, i: int)
    requires
        0 < i <= raws.len(),
        spec_nested_attributes(pool, raws.take(i)) is None,
    ensures
        spec_nested_attributes(pool, raws) is None,
    decreases raws.len() - i,
{
    if i < raws.len() {
        assert(raws.take(i + 1).drop_last() =~= raws.take(i));
        lemma_nested_prefix_fails(pool, raws, i + 1);
    } else {
        assert(raws.take(i) =~= raws);
    }
}

/// When a prefix of a list of attributes cannot be decoded, neither can the whole list.
proof fn lemma_infos_prefix_fails(pool: Seq<CpInfoModel>, raws: Seq<RawAttributeInfoModel>, i: int)
    requires
        0 < i <= raws.len(),
        spec_attribute_infos(pool, raws.take(i)) is None,
    ensures
        spec_attribute_infos(pool, raws) is None,
    decreases raws.len() - i,
{
    if i < raws.len() {
        assert(raws.take(i + 1).drop_last() =~= raws.take(i));
        lemma_infos_prefix_fails(pool, raws, i + 1);
    } else {
        assert(raws.take(i) =~= raws);
    }
}

fn parse_code_attribute(pool: &Vec<CpInfo>, b: &[u8]) -> (r: Result<CodeAttribute, AttributeError>)
    ensures
        r is Ok <==> spec_code_attribute(cp_view(pool@), b@) is Some,
        r matches Ok(c) ==> spec_code_attribute(cp_view(pool@), b@) == Some(c@),
        r matches Err(e) ==> (e is UnknownAttribute <==> unknown_in_code(cp_view(pool@), b@) is Some),
        r matches Err(AttributeError::UnknownAttribute(n)) ==> unknown_in_code(cp_view(pool@), b@)
            == Some(n@),
{
    if b.len() < 8 {
        return Err(AttributeError::Malformed);
    }
    let (max_stack, p1) = match read_u16(b, 0) {
        Ok(x) => x,
        Err(_) => return Err(AttributeError::Malformed),
    };
    let (max_locals, p2) = match read_u16(b, p1) {
        Ok(x) => x,
        Err(_) => return Err(AttributeError::Malformed),
    };
    let (code_len, p3) = match read_u32(b, p2) {
        Ok(x) => x,
        Err(_) => return Err(AttributeError::Malformed),
    };
    if ((b.len() - p3) as u64) < (code_len as u64) {
        return Err(AttributeError::Malformed);
    }
    let p = p3 + code_len as usize;
    let mut code: Vec<u8> = Vec::new();
    let mut i = p3;
    while i < p
        invariant
            p3 <= i <= p <= b@.len(),
            code@ == b@.subrange(p3 as int, i as int),
        decreases p - i,
    {
        code.push(b[i]);
        i = i + 1;
        assert(code@ =~= b@.subrange(p3 as int, i as int));
    }
    let (exception_table, q) = match parse_exception_table(b, p) {
        Ok(x) => x,
        Err(_) => return Err(AttributeError::Malformed),
    };
    let (raws, _) = match parse_attributes_list(b, q) {
        Ok(x) => x,
        Err(_) => return Err(AttributeError::Malformed),
    };
    assert(spec_code_raws(b@) == Some(raw_attributes_view(raws@)));
    let attributes = match parse_nested_attributes(pool, &raws) {
        Ok(a) => a,
        Err(e) => return Err(e),
    };
    Ok(CodeAttribute { max_stack, max_locals, code, exception_table, attributes })
}

/// The class that constant pool entry `index` names.
fn class_at(pool: &Vec<CpInfo>, index: u16) -> (r: Option<ClassIdentifier>)
    ensures
        r is Some <==> cp_class_identifier(cp_view(pool@), index as int) is Some,
        r matches Some(c) ==> cp_class_identifier(cp_view(pool@), index as int) == Some(c@),
{
    if !(index >= 1 && ((index - 1) as usize) < pool.len()) {
        return None;
    }
    let name_index = match pool[(index - 1) as usize].as_class_info() {
        Some(n) => n,
        None => return None,
    };
    let name = match attribute_name(pool, name_index) {
        Some(n) => n,
        None => return None,
    };
    parse_class_identifier(name)
}

/// Decodes the classes that the content of an `Exceptions` attribute lists.
fn parse_exceptions(pool: &Vec<CpInfo>, b: &[u8]) -> (r: Result<Vec<ClassIdentifier>, AttributeError>)
    ensures
        r is Ok <==> spec_exceptions(cp_view(pool@), b@) is Some,
        r matches Ok(v) ==> spec_exceptions(cp_view(pool@), b@) == Some(
            identifiers_view(v@),
        ),
        r is Err ==> r == Err::<Vec<ClassIdentifier>, AttributeError>(AttributeError::Malformed),
{
    let ghost pv = cp_view(pool@);
    let (count, _) = match read_u16(b, 0) {
        Ok(x) => x,
        Err(_) => return Err(AttributeError::Malformed),
    };
    let mut v: Vec<ClassIdentifier> = Vec::new();
    let mut k: u16 = 0;
    assert(identifiers_view(v@) =~= Seq::<ClassIdentifierModel>::empty());
    while k < count
        invariant
            k <= count,
            pv == cp_view(pool@),
            fits(b@, 0, 2),
            count == spec_u16(b@, 0),
            exception_classes(pv, b@, k as nat) == Some(identifiers_view(v@)),
        decreases count - k,
    {
        let pos = 2 + 2 * (k as usize);
        let (index, _) = match read_u16(b, pos) {
            Ok(x) => x,
            Err(_) => {
                proof {
                    lemma_exception_classes_fail(pv, b@, (k + 1) as nat, count as nat);
                }
                return Err(AttributeError::Malformed);
            },
        };
        let class = match class_at(pool, index) {
            Some(c) => c,
            None => {
                proof {
                    lemma_exception_classes_fail(pv, b@, (k + 1) as nat, count as nat);
                }
                return Err(AttributeError::Malformed);
            },
        };
        let ghost before = identifiers_view(v@);
        v.push(class);
        assert(identifiers_view(v@) =~= before.push(class@));
        k = k + 1;
    }
    Ok(v)
}

/// When the first `k` listed classes cannot be decoded, no longer prefix can either.
proof fn lemma_exception_classes_fail(pool: Seq<CpInfoModel>, s: Seq<u8>, k: nat, n: nat)
    requires
        k <= n,
        exception_classes(pool, s, k) is None,
    ensures
        exception_classes(pool, s, n) is None,
    decreases n - k,
{
    if k < n {
        lemma_exception_classes_fail(pool, s, k + 1, n);
    }
}

/// Decodes one raw attribute with the constant pool `pool`.
pub fn parse_attribute(pool: &Vec<CpInfo>, raw: &RawAttributeInfo) -> (r: Result<AttributeInfo, AttributeError>)
    ensures
        r is Ok <==> spec_attribute_info(cp_view(pool@), raw@) is Some,
        r matches Ok(a) ==> spec_attribute_info(cp_view(pool@), raw@) == Some(a@),
        r matches Err(e) ==> (e is UnknownAttribute <==> unknown_attribute_name(cp_view(pool@), raw@)
            is Some),
        r matches Err(AttributeError::UnknownAttribute(n)) ==> unknown_attribute_name(
            cp_view(pool@),
            raw@,
        ) == Some(n@),
{
    let name = match attribute_name(pool, raw.attribute_name_index) {
        Some(n) => n,
        None => {
            return Err(AttributeError::Malformed);
        },
    };
    if str_equal(name, "Code") {
        match parse_code_attribute(pool, raw.info.as_slice()) {
            Ok(c) => Ok(AttributeInfo::Code(c)),
            Err(e) => Err(e),
        }
    } else if str_equal(name, "Exceptions") {
        match parse_exceptions(pool, raw.info.as_slice()) {
            Ok(classes) => Ok(AttributeInfo::Exceptions(classes)),
            Err(e) => Err(e),
        }
    } else if str_equal(name, "SourceFile") {
        Ok(AttributeInfo::SourceFile)
    } else if str_equal(name, "LineNumberTable") {
        Ok(AttributeInfo::LineNumberTable)
    } else if str_equal(name, "LocalVariableTable") {
        Ok(AttributeInfo::LocalVariableTable)
    } else {
        Err(AttributeError::UnknownAttribute(name.to_owned()))
    }
}

/// Decodes a list of raw attributes with the constant pool `pool`.
pub fn parse_attribute_list(pool: &Vec<CpInfo>, raws: &Vec<RawAttributeInfo>) -> (r: Result<Vec<AttributeInfo>, AttributeError>)
    ensures
        r is Ok <==> spec_attribute_infos(cp_view(pool@), raw_attributes_view(raws@)) is Some,
        r matches Ok(v) ==> spec_attribute_infos(cp_view(pool@), raw_attributes_view(raws@))
            == Some(attributes_view(v@)),
{
    let ghost pv = cp_view(pool@);
    let ghost rv = raw_attributes_view(raws@);
    let mut v: Vec<AttributeInfo> = Vec::new();
    let mut i: usize = 0;
    assert(rv.take(0) =~= Seq::<RawAttributeInfoModel>::empty());
    assert(attributes_view(v@) =~= Seq::<AttributeInfoModel>::empty());
    while i < raws.len()
        invariant
            i <= raws.len(),
            pv == cp_view(pool@),
            rv == raw_attributes_view(raws@),
            spec_attribute_infos(pv, rv.take(i as int)) == Some(attributes_view(v@)),
        decreases raws.len() - i,
    {
        assert(rv.take(i + 1).drop_last() =~= rv.take(i as int));
        assert(rv.take(i + 1).last() == raws@[i as int]@);
        match parse_attribute(pool, &raws[i]) {
            Ok(a) => {
                let ghost old_v = attributes_view(v@);
                v.push(a);
                assert(attributes_view(v@) =~= old_v.push(a@));
            },
            Err(e) => {
                proof {
                    lemma_infos_prefix_fails(pv, rv, i as int + 1);
                }
                return Err(e);
            },
        }
        i = i + 1;
    }
    assert(rv.take(raws.len() as int) =~= rv);
    Ok(v)
}


/// A method entry with decoded attributes.
pub struct MethodInfo {
    pub access_flags: u16,
    pub name_index: u16,
    pub descriptor_index: u16,
    pub attributes: Vec<AttributeInfo>,
}

/// A field entry with decoded attributes.
pub struct FieldInfo {
    pub access_flags: u16,
    pub name_index: u16,
    pub descriptor_index: u16,
    pub attributes: Vec<AttributeInfo>,
}

/// The abstract value of a field or method entry with decoded attributes.
pub struct MemberModel {
    pub access_flags: u16,
    pub name_index: u16,
    pub descriptor_index: u16,
    pub attributes: Seq<AttributeInfoModel>,
}

impl View for MethodInfo {
    type V = MemberModel;

    open spec fn view(&self) -> MemberModel {
        MemberModel {
            access_flags: self.access_flags,
            name_index: self.name_index,
            descriptor_index: self.descriptor_index,
            attributes: attributes_view(self.attributes@),
        }
    }
}

impl View for FieldInfo {
    type V = MemberModel;

    open spec fn view(&self) -> MemberModel {
        MemberModel {
            access_flags: self.access_flags,
            name_index: self.name_index,
            descriptor_index: self.descriptor_index,
            attributes: attributes_view(self.attributes@),
        }
    }
}

/// A class file with decoded attributes.
pub struct ClassFile {
    pub constant_pool: Vec<CpInfo>,
    pub access_flags: u16,
    pub this_class: u16,
    pub super_class: u16,
    pub interfaces: Vec<u16>,
    pub fields: Vec<FieldInfo>,
    pub methods: Vec<MethodInfo>,
    pub attributes: Vec<AttributeInfo>,
}

/// The abstract value of a [`ClassFile`].
pub struct ClassFileModel {
    pub constant_pool: Seq<CpInfoModel>,
    pub access_flags: u16,
    pub this_class: u16,
    pub super_class: u16,
    pub interfaces: Seq<u16>,
    pub fields: Seq<MemberModel>,
    pub methods: Seq<MemberModel>,
    pub attributes: Seq<AttributeInfoModel>,
}

impl View for ClassFile {
    type V = ClassFileModel;

    open spec fn view(&self) -> ClassFileModel {
        ClassFileModel {
            constant_pool: cp_view(self.constant_pool@),
            access_flags: self.access_flags,
            this_class: self.this_class,
            super_class: self.super_class,
            interfaces: self.interfaces@,
            fields: self.fields@.map_values(|f: FieldInfo| f@),
            methods: self.methods@.map_values(|m: MethodInfo| m@),
            attributes: attributes_view(self.attributes@),
        }
    }
}

impl ClassFile {
    /// Looks up a constant pool entry by its one-based reference.
    pub fn get_java_cp_entry(&self, reference: usize) -> (r: Option<&CpInfo>)
        requires
            reference != 0,
        ensures
            r is Some <==> cp_entry_at(self@.constant_pool, reference as int) is Some,
            r matches Some(e) ==> cp_entry_at(self@.constant_pool, reference as int) == Some(
                e@,
            ),
    {
        if reference - 1 < self.constant_pool.len() {
            Some(&self.constant_pool[reference - 1])
        } else {
            None
        }
    }
}

/// A field or method entry with its attributes decoded.
pub open spec fn spec_member_info(pool: Seq<CpInfoModel>, m: RawMemberModel) -> Option<MemberModel> {
    match spec_attribute_infos(pool, m.attributes) {
        Some(attributes) => Some(
            MemberModel {
                access_flags: m.access_flags,
                name_index: m.name_index,
                descriptor_index: m.descriptor_index,
                attributes,
            },
        ),
        None => None,
    }
}

/// A list of field or method entries with their attributes decoded.
pub open spec fn spec_member_infos(pool: Seq<CpInfoModel>, ms: Seq<RawMemberModel>) -> Option<Seq<MemberModel>>
    decreases ms.len(),
{
    if ms.len() == 0 {
        Some(Seq::empty())
    } else {
        match (spec_member_infos(pool, ms.drop_last()), spec_member_info(pool, ms.last())) {
            (Some(done), Some(m)) => Some(done.push(m)),
            _ => None,
        }
    }
}

/// The class file `raw` with all its attributes decoded.
pub open spec fn spec_class_file_decoded(raw: RawClassFileModel) -> Option<ClassFileModel> {
    match (
        spec_attribute_infos(raw.constant_pool, raw.attributes),
        spec_member_infos(raw.constant_pool, raw.methods),
        spec_member_infos(raw.constant_pool, raw.fields),
    ) {
        (Some(attributes), Some(methods), Some(fields)) => Some(
            ClassFileModel {
                constant_pool: raw.constant_pool,
                access_flags: raw.access_flags,
                this_class: raw.this_class,
                super_class: raw.super_class,
                interfaces: raw.interfaces,
                fields,
                methods,
                attributes,
            },
        ),
        _ => None,
    }
}

proof fn lemma_members_prefix_fails(pool: Seq<CpInfoModel>, ms: Seq<RawMemberModel>, i: int)
    requires
        0 < i <= ms.len(),
        spec_member_infos(pool, ms.take(i)) is None,
    ensures
        spec_member_infos(pool, ms) is None,
    decreases ms.len() - i,
{
    if i < ms.len() {
        assert(ms.take(i + 1).drop_last() =~= ms.take(i));
        lemma_members_prefix_fails(pool, ms, i + 1);
    } else {
        assert(ms.take(i) =~= ms);
    }
}

fn decode_methods(pool: &Vec<CpInfo>, raws: &Vec<crate::classloader::raw::RawMethodInfo>) -> (r: Result<Vec<MethodInfo>, AttributeError>)
    ensures
        r is Ok <==> spec_member_infos(cp_view(pool@), crate::classloader::raw::raw_methods_view(raws@)) is Some,
        r matches Ok(v) ==> spec_member_infos(cp_view(pool@), crate::classloader::raw::raw_methods_view(raws@))
            == Some(v@.map_values(|m: MethodInfo| m@)),
{
    let ghost pv = cp_view(pool@);
    let ghost rv = crate::classloader::raw::raw_methods_view(raws@);
    let mut v: Vec<MethodInfo> = Vec::new();
    let mut i: usize = 0;
    assert(rv.take(0) =~= Seq::<RawMemberModel>::empty());
    assert(v@.map_values(|m: MethodInfo| m@) =~= Seq::<MemberModel>::empty());
    while i < raws.len()
        invariant
            i <= raws.len(),
            pv == cp_view(pool@),
            rv == crate::classloader::raw::raw_methods_view(raws@),
            spec_member_infos(pv, rv.take(i as int)) == Some(v@.map_values(|m: MethodInfo| m@)),
        decreases raws.len() - i,
    {
        assert(rv.take(i + 1).drop_last() =~= rv.take(i as int));
        assert(rv.take(i + 1).last() == raws@[i as int]@);
        let raw = &raws[i];
        match parse_attribute_list(pool, &raw.attributes) {
            Ok(attributes) => {
                let m = MethodInfo {
                    access_flags: raw.access_flags,
                    name_index: raw.name_index,
                    descriptor_index: raw.descriptor_index,
                    attributes,
                };
                let ghost old_v = v@.map_values(|m: MethodInfo| m@);
                v.push(m);
                assert(v@.map_values(|m: MethodInfo| m@) =~= old_v.push(m@));
            },
            Err(e) => {
                proof {
                    lemma_members_prefix_fails(pv, rv, i as int + 1);
                }
                return Err(e);
            },
        }
        i = i + 1;
    }
    assert(rv.take(raws.len() as int) =~= rv);
    Ok(v)
}

fn decode_fields(pool: &Vec<CpInfo>, raws: &Vec<crate::classloader::raw::RawFieldInfo>) -> (r: Result<Vec<FieldInfo>, AttributeError>)
    ensures
        r is Ok <==> spec_member_infos(cp_view(pool@), crate::classloader::raw::raw_fields_view(raws@)) is Some,
        r matches Ok(v) ==> spec_member_infos(cp_view(pool@), crate::classloader::raw::raw_fields_view(raws@))
            == Some(v@.map_values(|f: FieldInfo| f@)),
{
    let ghost pv = cp_view(pool@);
    let ghost rv = crate::classloader::raw::raw_fields_view(raws@);
    let mut v: Vec<FieldInfo> = Vec::new();
    let mut i: usize = 0;
    assert(rv.take(0) =~= Seq::<RawMemberModel>::empty());
    assert(v@.map_values(|f: FieldInfo| f@) =~= Seq::<MemberModel>::empty());
    while i < raws.len()
        invariant
            i <= raws.len(),
            pv == cp_view(pool@),
            rv == crate::classloader::raw::raw_fields_view(raws@),
            spec_member_infos(pv, rv.take(i as int)) == Some(v@.map_values(|f: FieldInfo| f@)),
        decreases raws.len() - i,
    {
        assert(rv.take(i + 1).drop_last() =~= rv.take(i as int));
        assert(rv.take(i + 1).last() == raws@[i as int]@);
        let raw = &raws[i];
        match parse_attribute_list(pool, &raw.attributes) {
            Ok(attributes) => {
                let f = FieldInfo {
                    access_flags: raw.access_flags,
                    name_index: raw.name_index,
                    descriptor_index: raw.descriptor_index,
                    attributes,
                };
                let ghost old_v = v@.map_values(|f: FieldInfo| f@);
                v.push(f);
                assert(v@.map_values(|f: FieldInfo| f@) =~= old_v.push(f@));
            },
            Err(e) => {
                proof {
                    lemma_members_prefix_fails(pv, rv, i as int + 1);
                }
                return Err(e);
            },
        }
        i = i + 1;
    }
    assert(rv.take(raws.len() as int) =~= rv);
    Ok(v)
}

/// Decodes all attributes of a class file: those of the class, of its methods and of its
/// fields, in this order.
pub fn parse_attributes(class_file: RawClassFile) -> (r: Result<ClassFile, AttributeError>)
    ensures
        r is Ok <==> spec_class_file_decoded(class_file@) is Some,
        r matches Ok(c) ==> spec_class_file_decoded(class_file@) == Some(c@),
{
    let class_attributes = parse_attribute_list(&class_file.constant_pool, &class_file.attributes)?;
    let methods = decode_methods(&class_file.constant_pool, &class_file.methods)?;
    let fields = decode_fields(&class_file.constant_pool, &class_file.fields)?;
    Ok(
        ClassFile {
            constant_pool: class_file.constant_pool,
            access_flags: class_file.access_flags,
            this_class: class_file.this_class,
            super_class: class_file.super_class,
            interfaces: class_file.interfaces,
            fields,
            methods,
            attributes: class_attributes,
        },
    )
}

} // verus!

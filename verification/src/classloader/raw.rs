//! The class file as it is laid out in bytes, before attributes are decoded.
use vstd::prelude::*;

use crate::classloader::constant_pool::{cp_view, CpInfo, CpInfoModel};

verus! {

/// An attribute whose content has not been decoded yet.
pub struct RawAttributeInfo {
    pub attribute_name_index: u16,
    pub info: Vec<u8>,
}

/// The abstract value of a [`RawAttributeInfo`].
pub struct RawAttributeInfoModel {
    pub attribute_name_index: u16,
    pub info: Seq<u8>,
}

impl View for RawAttributeInfo {
    type V = RawAttributeInfoModel;

    open spec fn view(&self) -> RawAttributeInfoModel {
        RawAttributeInfoModel { attribute_name_index: self.attribute_name_index, info: self.info@ }
    }
}

/// The abstract values of a list of raw attributes.
pub open spec fn raw_attributes_view(v: Seq<RawAttributeInfo>) -> Seq<RawAttributeInfoModel> {
    v.map_values(|a: RawAttributeInfo| a@)
}

/// The abstract value of a field or method entry of a class file.
pub struct RawMemberModel {
    pub access_flags: u16,
    pub name_index: u16,
    pub descriptor_index: u16,
    pub attributes: Seq<RawAttributeInfoModel>,
}

/// A method entry of a class file.
pub struct RawMethodInfo {
    pub access_flags: u16,
    pub name_index: u16,
    pub descriptor_index: u16,
    pub attributes: Vec<RawAttributeInfo>,
}

/// A field entry of a class file.
pub struct RawFieldInfo {
    pub access_flags: u16,
    pub name_index: u16,
    pub descriptor_index: u16,
    pub attributes: Vec<RawAttributeInfo>,
}

impl View for RawMethodInfo {
    type V = RawMemberModel;

    open spec fn view(&self) -> RawMemberModel {
        RawMemberModel {
            access_flags: self.access_flags,
            name_index: self.name_index,
            descriptor_index: self.descriptor_index,
            attributes: raw_attributes_view(self.attributes@),
        }
    }
}

impl View for RawFieldInfo {
    type V = RawMemberModel;

    open spec fn view(&self) -> RawMemberModel {
        RawMemberModel {
            access_flags: self.access_flags,
            name_index: self.name_index,
            descriptor_index: self.descriptor_index,
            attributes: raw_attributes_view(self.attributes@),
        }
    }
}

/// The abstract values of a list of method entries.
pub open spec fn raw_methods_view(v: Seq<RawMethodInfo>) -> Seq<RawMemberModel> {
    v.map_values(|m: RawMethodInfo| m@)
}

/// The abstract values of a list of field entries.
pub open spec fn raw_fields_view(v: Seq<RawFieldInfo>) -> Seq<RawMemberModel> {
    v.map_values(|m: RawFieldInfo| m@)
}

/// The abstract value of a [`RawClassFile`].
pub struct RawClassFileModel {
    pub minor_version: u16,
    pub major_version: u16,
    pub constant_pool: Seq<CpInfoModel>,
    pub access_flags: u16,
    pub this_class: u16,
    pub super_class: u16,
    pub interfaces: Seq<u16>,
    pub fields: Seq<RawMemberModel>,
    pub methods: Seq<RawMemberModel>,
    pub attributes: Seq<RawAttributeInfoModel>,
}

/// A class file whose attributes have not been decoded yet.
pub struct RawClassFile {
    pub minor_version: u16,
    pub major_version: u16,
    pub constant_pool: Vec<CpInfo>,
    pub access_flags: u16,
    pub this_class: u16,
    pub super_class: u16,
    pub interfaces: Vec<u16>,
    pub fields: Vec<RawFieldInfo>,
    pub methods: Vec<RawMethodInfo>,
    pub attributes: Vec<RawAttributeInfo>,
}

impl View for RawClassFile {
    type V = RawClassFileModel;

    open spec fn view(&self) -> RawClassFileModel {
        RawClassFileModel {
            minor_version: self.minor_version,
            major_version: self.major_version,
            constant_pool: cp_view(self.constant_pool@),
            access_flags: self.access_flags,
            this_class: self.this_class,
            super_class: self.super_class,
            interfaces: self.interfaces@,
            fields: raw_fields_view(self.fields@),
            methods: raw_methods_view(self.methods@),
            attributes: raw_attributes_view(self.attributes@),
        }
    }
}

/// The constant pool entry that a one-based reference points to, if any.
pub open spec fn cp_entry_at(pool: Seq<CpInfoModel>, reference: int) -> Option<CpInfoModel> {
    if 1 <= reference <= pool.len() {
        Some(pool[reference - 1])
    } else {
        None
    }
}

impl RawClassFile {
    /// Looks up a constant pool entry by its one-based reference.
    pub fn get_java_cp_entry(&self, reference: usize) -> (r: Option<&CpInfo>)
        requires
            reference != 0,
        ensures
            r is Some <==> cp_entry_at(self@.constant_pool, reference as int) is Some,
            r matches Some(e) ==> cp_entry_at(self@.constant_pool, reference as int) == Some(
                e@,
            ),
    {
        if reference - 1 < self.constant_pool.len() {
            Some(&self.constant_pool[reference - 1])
        } else {
            None
        }
    }
}

} // verus!

//! What a resolved method call needs again the next time it runs.
use vstd::prelude::*;

use crate::jvm_model::{ClassId, DescriptorType};

verus! {

/// A resolved call of a static (or special) method.
#[derive(Debug, Clone)]
pub struct StaticMethodCallInfo {
    pub class: ClassId,
    pub method_index: usize,
    pub bytecode_index: Option<usize>,
    /// list of types in stack pop order (reversed)
    pub parameter_list: Vec<DescriptorType>,
}

/// A resolved call of a virtual method, which the object's class decides.
#[derive(Debug, Clone)]
pub struct VirtualMethodCallInfo {
    pub method_name: String,
    pub descriptor: String,
    /// list of types in stack pop order (reversed)
    pub parameter_list: Vec<DescriptorType>,
}

/// A resolved call of an interface method: the interface, and the method,
/// which the object's class decides.
#[derive(Debug, Clone)]
pub struct InterfaceMethodCallInfo {
    pub interface: ClassId,
    pub method_name: String,
    pub descriptor: String,
    /// list of types in stack pop order (reversed)
    pub parameter_list: Vec<DescriptorType>,
}

/// What tells two virtual calls apart: the method's name and descriptor.
#[derive(Debug, Clone, PartialEq, Eq, Hash)]
pub struct VirtualMethodInfoKey {
    pub method_name: String,
    pub descriptor: String,
}

impl From<VirtualMethodCallInfo> for VirtualMethodInfoKey {
    fn from(value: VirtualMethodCallInfo) -> (res: Self) {
        Self { method_name: value.method_name, descriptor: value.descriptor }
    }
}

impl vstd::std_specs::convert::FromSpecImpl<VirtualMethodCallInfo> for VirtualMethodInfoKey {
    open spec fn obeys_from_spec() -> bool {
        true
    }

    open spec fn from_spec(value: VirtualMethodCallInfo) -> Self {
        VirtualMethodInfoKey { method_name: value.method_name, descriptor: value.descriptor }
    }
}

} // verus!

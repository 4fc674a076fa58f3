//! Whether code of one class may use a method or field of another.
use vstd::prelude::*;

use crate::class_file::{FieldAccessFlags, MethodAccessFlags, flag_set};
use crate::class_hierarchy::{ClassHierarchy, subclass_of};
use crate::jvm_model::ClassId;
use crate::text::{str_equal, str_to_chars};
use vstd::string::StrSliceExecFns;

verus! {

/// Who may use a method or a field.
#[derive(Debug, Clone, Copy, PartialEq, Eq, Structural)]
pub enum AccessLevel {
    Private,
    Public,
    Protected,
    Package,
}

/// The access level that access flags give: public, else private, else
/// protected, else package.
pub open spec fn access_level_of(bits: u16, public: u16, private: u16, protected: u16) -> AccessLevel {
    if flag_set(bits, public) {
        AccessLevel::Public
    } else if flag_set(bits, private) {
        AccessLevel::Private
    } else if flag_set(bits, protected) {
        AccessLevel::Protected
    } else {
        AccessLevel::Package
    }
}

impl From<MethodAccessFlags> for AccessLevel {
    fn from(value: MethodAccessFlags) -> (res: Self) {
        if value.check_flag(MethodAccessFlags::PUBLIC_FLAG) {
            Self::Public
        } else if value.check_flag(MethodAccessFlags::PRIVATE_FLAG) {
            Self::Private
        } else if value.check_flag(MethodAccessFlags::PROTECTED_FLAG) {
            Self::Protected
        } else {
            Self::Package
        }
    }
}

impl vstd::std_specs::convert::FromSpecImpl<MethodAccessFlags> for AccessLevel {
    open spec fn obeys_from_spec() -> bool {
        true
    }

    open spec fn from_spec(value: MethodAccessFlags) -> Self {
        access_level_of(
            value@,
            MethodAccessFlags::PUBLIC_FLAG,
            MethodAccessFlags::PRIVATE_FLAG,
            MethodAccessFlags::PROTECTED_FLAG,
        )
    }
}

impl From<FieldAccessFlags> for AccessLevel {
    fn from(value: FieldAccessFlags) -> (res: Self) {
        if value.check_flag(FieldAccessFlags::PUBLIC_FLAG) {
            Self::Public
        } else if value.check_flag(FieldAccessFlags::PRIVATE_FLAG) {
            Self::Private
        } else if value.check_flag(FieldAccessFlags::PROTECTED_FLAG) {
            Self::Protected
        } else {
            Self::Package
        }
    }
}

impl vstd::std_specs::convert::FromSpecImpl<FieldAccessFlags> for AccessLevel {
    open spec fn obeys_from_spec() -> bool {
        true
    }

    open spec fn from_spec(value: FieldAccessFlags) -> Self {
        access_level_of(
            value@,
            FieldAccessFlags::PUBLIC_FLAG,
            FieldAccessFlags::PRIVATE_FLAG,
            FieldAccessFlags::PROTECTED_FLAG,
        )
    }
}

/// The package of a class: its name up to the last `/`, or nothing when the
/// name has no `/`.
pub open spec fn package_of(name: Seq<char>) -> Seq<char> {
    if exists|i: int| 0 <= i < name.len() && name[i] == '/' {
        let last = choose|i: int|
            0 <= i < name.len() && name[i] == '/' && forall|j: int| i < j < name.len() ==> name[j] != '/';
        name.subrange(0, last)
    } else {
        Seq::empty()
    }
}

/// The package that the class named `class_name` belongs to.
pub fn get_package_name(class_name: &str) -> (res: &str)
    ensures
        res@ == package_of(class_name@),
{
    let chars = str_to_chars(class_name);
    let mut i = chars.len();
    while i > 0
        invariant
            chars@ == class_name@,
            i <= chars@.len(),
            forall|j: int| i <= j < chars@.len() ==> chars@[j] != '/',
        decreases i,
    {
        if chars[i - 1] == '/' {
            proof {
                let s = class_name@;
                let last = choose|k: int|
                    0 <= k < s.len() && s[k] == '/' && forall|j: int| k < j < s.len() ==> s[j] != '/';
                assert(s[i - 1] == '/');
                if last < i - 1 {
                    assert(s[i - 1] != '/');
                } else if last > i - 1 {
                    assert(s[last] != '/');
                }
            }
            return class_name.substring_char(0, i - 1);
        }
        i -= 1;
    }
    proof {
        assert(class_name@.subrange(0, 0) =~= Seq::<char>::empty());
    }
    class_name.substring_char(0, 0)
}

/// Code of class `current` may use a member of class `target` with access
/// `access`: public always, private only in the same class, protected in a
/// subclass or the same package, package access in the same package.
pub open spec fn has_access(
    supers: Seq<Option<ClassId>>,
    ifaces: Seq<Seq<ClassId>>,
    current: ClassId,
    target: ClassId,
    access: AccessLevel,
    current_name: Seq<char>,
    target_name: Seq<char>,
) -> bool {
    match access {
        AccessLevel::Public => true,
        AccessLevel::Private => current == target,
        AccessLevel::Protected => subclass_of(supers, ifaces, target as int, current as int) || package_of(
            current_name,
        ) == package_of(target_name),
        AccessLevel::Package => package_of(current_name) == package_of(target_name),
    }
}

/// The two classes, by name, are in the same package.
fn check_same_package(current_class_name: &str, target_class_name: &str) -> (res: bool)
    ensures
        res == (package_of(current_class_name@) == package_of(target_class_name@)),
{
    let package1 = get_package_name(current_class_name);
    let package2 = get_package_name(target_class_name);
    str_equal(package1, package2)
}

/// Whether code of class `current` (named `current_name`) may use a member
/// of class `target` (named `target_name`) with access `access`.
pub fn check_has_access(
    hierarchy: &ClassHierarchy,
    current: ClassId,
    current_name: &str,
    target: ClassId,
    target_name: &str,
    access: AccessLevel,
) -> (res: bool)
    requires
        hierarchy.wf(),
        current < hierarchy.supers().len(),
        target < hierarchy.supers().len(),
    ensures
        res == has_access(
            hierarchy.supers(),
            hierarchy.ifaces(),
            current,
            target,
            access,
            current_name@,
            target_name@,
        ),
{
    match access {
        AccessLevel::Public => true,
        AccessLevel::Private => current == target,
        AccessLevel::Protected => hierarchy.is_sublcass_of(target, current) || check_same_package(
            current_name,
            target_name,
        ),
        AccessLevel::Package => check_same_package(current_name, target_name),
    }
}

} // verus!

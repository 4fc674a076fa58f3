//! Resolving the method that a virtual call runs: the first concrete method
//! with the name and descriptor up the object's class chain, else the first
//! default method among the interfaces of that chain.
use vstd::prelude::*;

use crate::bytecode::access_check::{AccessLevel, access_level_of, check_has_access, has_access};
use crate::bytecode::{read_u16_from_bytecode, read_u8_from_bytecode, same_activation, spec_u16_at};
use crate::class_file::{
    ClassFile,
    MethodAccessFlags,
    cp_class_name,
    cp_interface_method_ref,
    cp_member,
    cp_method_ref,
    cp_utf8,
    cp_wf,
    flag_set,
    lemma_found_method,
    opt_int,
    valid_cp_index,
};
use crate::text::opt_text3;
use crate::class_hierarchy::{ClassHierarchy, extends_directly, lemma_chain_extend, lemma_chain_single, subclass_of};
use crate::jvm_model::{
    ClassId,
    JvmError,
    JvmResult,
    JvmStackFrame,
    JvmThread,
    JvmValue,
    is_fresh_frame,
};
use crate::jvm_cache::method_signature_cache::MethodSignatureId;
use crate::v_table::{VTable, VTableEntry};

verus! {

/// The concrete (not abstract) method of `cf` with this name and
/// descriptor, with the position of its `Code` attribute.
pub open spec fn concrete_method(cf: ClassFile, name: Seq<char>, descriptor: Seq<char>) -> Option<(int, Option<int>)> {
    match cf.find_method(name, descriptor, 0) {
        Some((m, b)) => if flag_set(cf.methods@[m].access_flags@, MethodAccessFlags::ABSTRACT_FLAG) {
            None
        } else {
            Some((m, b))
        },
        None => None,
    }
}

/// A resolved method as the class, the method's position and its `Code`
/// attribute's position.
pub open spec fn entry_view(e: VTableEntry) -> (int, int, Option<int>) {
    (e.resolved_class as int, e.method_index as int, opt_int(e.bytecode_index))
}

/// The first concrete method along the super chain from `c`. A super class
/// is loaded before its subclasses, so the chain runs down the class ids.
pub open spec fn chain_method(
    classes: Seq<ClassFile>,
    supers: Seq<Option<ClassId>>,
    c: int,
    name: Seq<char>,
    descriptor: Seq<char>,
) -> Option<(int, int, Option<int>)>
    decreases c,
{
    match concrete_method(classes[c], name, descriptor) {
        Some((m, b)) => Some((c, m, b)),
        None => match supers[c] {
            Some(s) => if s < c {
                chain_method(classes, supers, s as int, name, descriptor)
            } else {
                None
            },
            None => None,
        },
    }
}

/// The first concrete method found depth first among the interfaces
/// `list` (all loaded before the class `bound`) and the interfaces they
/// extend.
pub open spec fn interfaces_method(
    classes: Seq<ClassFile>,
    ifaces: Seq<Seq<ClassId>>,
    list: Seq<ClassId>,
    bound: int,
    name: Seq<char>,
    descriptor: Seq<char>,
) -> Option<(int, int, Option<int>)>
    decreases bound, list.len(),
{
    if list.len() == 0 {
        None
    } else {
        let i = list[0] as int;
        if i < bound {
            match concrete_method(classes[i], name, descriptor) {
                Some((m, b)) => Some((i, m, b)),
                None => match interfaces_method(classes, ifaces, ifaces[i], i, name, descriptor) {
                    Some(x) => Some(x),
                    None => interfaces_method(classes, ifaces, list.drop_first(), bound, name, descriptor),
                },
            }
        } else {
            None
        }
    }
}

/// The first default method among the interfaces of the classes along the
/// super chain from `c`.
pub open spec fn chain_default_method(
    classes: Seq<ClassFile>,
    supers: Seq<Option<ClassId>>,
    ifaces: Seq<Seq<ClassId>>,
    c: int,
    name: Seq<char>,
    descriptor: Seq<char>,
) -> Option<(int, int, Option<int>)>
    decreases c,
{
    match interfaces_method(classes, ifaces, ifaces[c], c, name, descriptor) {
        Some(x) => Some(x),
        None => match supers[c] {
            Some(s) => if s < c {
                chain_default_method(classes, supers, ifaces, s as int, name, descriptor)
            } else {
                None
            },
            None => None,
        },
    }
}

/// The class files go with the hierarchy's classes.
pub open spec fn classes_match(hierarchy: ClassHierarchy, classes: Seq<ClassFile>) -> bool {
    &&& hierarchy.wf()
    &&& classes.len() == hierarchy.supers().len()
    &&& forall|i: int| 0 <= i < classes.len() ==> (#[trigger] classes[i]).wf()
}

/// The concrete method of class `class` with this name and descriptor.
fn check_concrete_method(class_file: &ClassFile, method_name: &str, method_descriptor: &str) -> (res: Option<(usize, Option<usize>)>)
    requires
        class_file.wf(),
    ensures
        match res {
            Some((m, b)) => Some((m as int, opt_int(b))),
            None => None,
        } == concrete_method(*class_file, method_name@, method_descriptor@),
        res matches Some((m, _)) ==> m < class_file.methods@.len(),
{
    match class_file.get_method_and_bytecode_index(method_name, method_descriptor) {
        Some((method, bytecode_index)) => {
            proof {
                lemma_found_method(*class_file, method_name@, method_descriptor@, 0);
            }
            if class_file.methods[method].access_flags.check_flag(MethodAccessFlags::ABSTRACT_FLAG) {
                None
            } else {
                Some((method, bytecode_index))
            }
        },
        None => None,
    }
}

/// Searches the interfaces `list`, depth first, for a default method; the
/// interfaces were loaded before the class `bound`.
fn search_interfaces_for_default_method(
    hierarchy: &ClassHierarchy,
    class_files: &Vec<ClassFile>,
    list: &Vec<ClassId>,
    bound: ClassId,
    method_name: &str,
    method_descriptor: &str,
) -> (res: Option<VTableEntry>)
    requires
        classes_match(*hierarchy, class_files@),
        bound <= hierarchy.supers().len(),
        forall|k: int| 0 <= k < list@.len() ==> #[trigger] list@[k] < bound,
    ensures
        match res {
            Some(e) => Some(entry_view(e)),
            None => None,
        } == interfaces_method(
            class_files@,
            hierarchy.ifaces(),
            list@,
            bound as int,
            method_name@,
            method_descriptor@,
        ),
    decreases bound,
{
    let ghost classes = class_files@;
    let ghost ifaces = hierarchy.ifaces();
    let mut k: usize = 0;
    proof {
        assert(list@.subrange(0, list@.len() as int) =~= list@);
    }
    while k < list.len()
        invariant
            classes_match(*hierarchy, class_files@),
            classes == class_files@,
            ifaces == hierarchy.ifaces(),
            bound <= hierarchy.supers().len(),
            forall|j: int| 0 <= j < list@.len() ==> #[trigger] list@[j] < bound,
            k <= list@.len(),
            interfaces_method(classes, ifaces, list@, bound as int, method_name@, method_descriptor@)
                == interfaces_method(
                classes,
                ifaces,
                list@.subrange(k as int, list@.len() as int),
                bound as int,
                method_name@,
                method_descriptor@,
            ),
        decreases list@.len() - k,
    {
        let interface = list[k];
        let ghost rest = list@.subrange(k as int, list@.len() as int);
        proof {
            assert(rest[0] == interface);
            assert(rest.drop_first() =~= list@.subrange(k + 1, list@.len() as int));
            assert(class_files@[interface as int].wf());
            hierarchy.lemma_loaded_before(interface);
        }
        if let Some((method, bytecode_index)) = check_concrete_method(
            &class_files[interface],
            method_name,
            method_descriptor,
        ) {
            return Some(VTableEntry::new(interface, method, bytecode_index));
        }
        let inner = hierarchy.interfaces_of(interface);
        if let Some(entry) = search_interfaces_for_default_method(
            hierarchy,
            class_files,
            inner,
            interface,
            method_name,
            method_descriptor,
        ) {
            return Some(entry);
        }
        k += 1;
    }
    proof {
        assert(list@.subrange(k as int, list@.len() as int).len() == 0);
    }
    None
}

/// Finds the method that a virtual call of `method_name` with
/// `method_descriptor` on an object of class `object_class` runs: the first
/// concrete method up the super chain, else the first default method of an
/// interface along that chain.
pub fn find_virtual_method(
    hierarchy: &ClassHierarchy,
    class_files: &Vec<ClassFile>,
    object_class: ClassId,
    method_name: &str,
    method_descriptor: &str,
) -> (res: JvmResult<VTableEntry>)
    requires
        classes_match(*hierarchy, class_files@),
        object_class < hierarchy.supers().len(),
    ensures
        match virtual_method_of(
            class_files@,
            hierarchy.supers(),
            hierarchy.ifaces(),
            object_class as int,
            method_name@,
            method_descriptor@,
        ) {
            Some(x) => res matches Ok(e) && entry_view(e) == x,
            None => res matches Err(e) && (*e matches JvmError::VirtualMethodError {
                method_name: m,
                method_descriptor: d,
            } && m@ == method_name@ && d@ == method_descriptor@),
        },
        concrete_method(class_files@[object_class as int], method_name@, method_descriptor@) matches Some((m, b))
            ==> res matches Ok(e) && entry_view(e) == (object_class as int, m, b),
{
    proof {
        if let Some((m, b)) = concrete_method(class_files@[object_class as int], method_name@, method_descriptor@) {
            lemma_own_method_overrides(
                class_files@,
                hierarchy.supers(),
                hierarchy.ifaces(),
                object_class as int,
                method_name@,
                method_descriptor@,
                m,
                b,
            );
        }
    }
    let ghost supers = hierarchy.supers();
    let ghost ifaces = hierarchy.ifaces();
    let ghost classes = class_files@;
    let mut class = object_class;
    loop
        invariant
            classes_match(*hierarchy, classes),
            classes == class_files@,
            supers == hierarchy.supers(),
            class < supers.len(),
            chain_method(classes, supers, object_class as int, method_name@, method_descriptor@)
                == chain_method(classes, supers, class as int, method_name@, method_descriptor@),
        ensures
            chain_method(classes, supers, object_class as int, method_name@, method_descriptor@) is None,
        decreases class,
    {
        proof {
            assert(classes[class as int].wf());
            hierarchy.lemma_loaded_before(class);
        }
        if let Some((method, bytecode_index)) = check_concrete_method(
            &class_files[class],
            method_name,
            method_descriptor,
        ) {
            return Ok(VTableEntry::new(class, method, bytecode_index));
        }
        match hierarchy.super_class(class) {
            Some(s) => {
                class = s;
            },
            None => {
                break;
            },
        }
    }
    let mut class = object_class;
    loop
        invariant
            classes_match(*hierarchy, classes),
            classes == class_files@,
            supers == hierarchy.supers(),
            ifaces == hierarchy.ifaces(),
            class < supers.len(),
            chain_method(classes, supers, object_class as int, method_name@, method_descriptor@) is None,
            chain_default_method(classes, supers, ifaces, object_class as int, method_name@, method_descriptor@)
                == chain_default_method(classes, supers, ifaces, class as int, method_name@, method_descriptor@),
        ensures
            chain_default_method(classes, supers, ifaces, object_class as int, method_name@, method_descriptor@)
                is None,
        decreases class,
    {
        proof {
            hierarchy.lemma_loaded_before(class);
        }
        let interfaces = hierarchy.interfaces_of(class);
        if let Some(entry) = search_interfaces_for_default_method(
            hierarchy,
            class_files,
            interfaces,
            class,
            method_name,
            method_descriptor,
        ) {
            return Ok(entry);
        }
        match hierarchy.super_class(class) {
            Some(s) => {
                class = s;
            },
            None => {
                break;
            },
        }
    }
    Err(
        JvmError::VirtualMethodError {
            method_name: method_name.to_owned(),
            method_descriptor: method_descriptor.to_owned(),
        }.bx(),
    )
}

/// Reads the operands of `invokeinterface`: the two-byte constant pool
/// index, which must not be 0, and the count byte, skipping the reserved byte
/// after it.
pub fn read_invokeinterface_params(frame: &mut JvmStackFrame, code: &[u8]) -> (res: JvmResult<(usize, usize)>)
    requires
        old(frame).program_counter + 4 <= code@.len(),
    ensures
        same_activation(*old(frame), *final(frame)),
        final(frame).local_variables@ == old(frame).local_variables@,
        final(frame).operand_stack@ == old(frame).operand_stack@,
        ({
            let pc = old(frame).program_counter as int;
            let index = spec_u16_at(code@, pc);
            if index == 0 {
                &&& res matches Err(e) && *e == JvmError::InvalidConstantPoolIndex
                &&& final(frame).program_counter == pc + 2
            } else {
                &&& res == Ok::<(usize, usize), Box<JvmError>>((index as usize, code@[pc + 2] as usize))
                &&& final(frame).program_counter == pc + 4
            }
        }),
{
    let index = read_u16_from_bytecode(frame, code);
    if index == 0 {
        return Err(JvmError::InvalidConstantPoolIndex.bx());
    }
    let count = read_u8_from_bytecode(frame, code);
    let _reserved = read_u8_from_bytecode(frame, code);
    Ok((index as usize, count as usize))
}

/// The entry that the virtual table `v_table` of the class `object_class`
/// holds for the signature `signature`; where it holds none, the method that
/// [`find_virtual_method`] resolves, which is then registered for the
/// signature.
pub fn resolve_virtual_method(
    v_table: &mut VTable,
    signature: MethodSignatureId,
    hierarchy: &ClassHierarchy,
    class_files: &Vec<ClassFile>,
    object_class: ClassId,
    method_name: &str,
    method_descriptor: &str,
) -> (res: JvmResult<VTableEntry>)
    requires
        old(v_table).wf(),
        classes_match(*hierarchy, class_files@),
        object_class < hierarchy.supers().len(),
    ensures
        final(v_table).wf(),
        match old(v_table).resolves(signature) {
            Some(e) => res == Ok::<VTableEntry, Box<JvmError>>(e) && final(v_table).resolves(signature) == Some(e),
            None => match res {
                Ok(e) => final(v_table).resolves(signature) == Some(e) && Some(entry_view(e))
                    == virtual_method_of(
                    class_files@,
                    hierarchy.supers(),
                    hierarchy.ifaces(),
                    object_class as int,
                    method_name@,
                    method_descriptor@,
                ),
                Err(e) => final(v_table).resolves(signature) is None && virtual_method_of(
                    class_files@,
                    hierarchy.supers(),
                    hierarchy.ifaces(),
                    object_class as int,
                    method_name@,
                    method_descriptor@,
                ) is None && (*e matches JvmError::VirtualMethodError { method_name: m, method_descriptor: d }
                    && m@ == method_name@ && d@ == method_descriptor@),
            },
        },
        forall|other: MethodSignatureId|
            other != signature ==> final(v_table).resolves(other) == old(v_table).resolves(other),
{
    if let Some(entry) = v_table.get(signature) {
        return Ok(entry);
    }
    let entry = find_virtual_method(hierarchy, class_files, object_class, method_name, method_descriptor)?;
    v_table.register(signature, entry);
    Ok(entry)
}

/// The method that a virtual call resolves to, as [`find_virtual_method`]
/// states it: a concrete method up the super chain, else a default method of
/// the interfaces along it.
pub open spec fn virtual_method_of(
    classes: Seq<ClassFile>,
    supers: Seq<Option<ClassId>>,
    ifaces: Seq<Seq<ClassId>>,
    c: int,
    name: Seq<char>,
    descriptor: Seq<char>,
) -> Option<(int, int, Option<int>)> {
    match chain_method(classes, supers, c, name, descriptor) {
        Some(x) => Some(x),
        None => chain_default_method(classes, supers, ifaces, c, name, descriptor),
    }
}

/// What an invoke instruction does with the method it resolved.
#[derive(Debug, Clone, Copy, PartialEq, Eq, Structural)]
pub enum CallCheck {
    /// The call goes ahead.
    Allowed,
    /// The method is static where the instruction wants an instance method,
    /// or the other way round: `IncompatibleClassChangeError` is thrown.
    IncompatibleClassChange,
    /// The calling class may not use the method: `IllegalAccessError` is
    /// thrown.
    IllegalAccess,
}

/// The class files of `current` and `target` name their classes.
pub open spec fn classes_named(classes: Seq<ClassFile>, current: ClassId, target: ClassId) -> bool {
    &&& cp_class_name(classes[current as int].constant_pool@, classes[current as int].class_index as int) is Some
    &&& cp_class_name(classes[target as int].constant_pool@, classes[target as int].class_index as int) is Some
}

/// Checks a call from class `current` of method `method_index` of class
/// `target`: the method is static exactly when `expect_static` says so, and
/// its access flags let `current` use it.
pub open spec fn call_check(
    hierarchy: ClassHierarchy,
    classes: Seq<ClassFile>,
    current: ClassId,
    target: ClassId,
    method_index: int,
    expect_static: bool,
) -> CallCheck {
    let flags = classes[target as int].methods@[method_index].access_flags@;
    let name = |c: ClassId| cp_class_name(classes[c as int].constant_pool@, classes[c as int].class_index as int).unwrap();
    if flag_set(flags, MethodAccessFlags::STATIC_FLAG) != expect_static {
        CallCheck::IncompatibleClassChange
    } else if !has_access(
        hierarchy.supers(),
        hierarchy.ifaces(),
        current,
        target,
        access_level_of(
            flags,
            MethodAccessFlags::PUBLIC_FLAG,
            MethodAccessFlags::PRIVATE_FLAG,
            MethodAccessFlags::PROTECTED_FLAG,
        ),
        name(current),
        name(target),
    ) {
        CallCheck::IllegalAccess
    } else {
        CallCheck::Allowed
    }
}

/// Whether a call from class `current` of method `method_index` of class
/// `target` goes ahead: `invokestatic` wants a static method,
/// `invokespecial`, `invokevirtual` and `invokeinterface` an instance one,
/// and the method's access must admit the caller.
pub fn check_invoked_method(
    hierarchy: &ClassHierarchy,
    class_files: &Vec<ClassFile>,
    current: ClassId,
    target: ClassId,
    method_index: usize,
    expect_static: bool,
) -> (res: CallCheck)
    requires
        classes_match(*hierarchy, class_files@),
        current < hierarchy.supers().len(),
        target < hierarchy.supers().len(),
        method_index < class_files@[target as int].methods@.len(),
        classes_named(class_files@, current, target),
    ensures
        res == call_check(*hierarchy, class_files@, current, target, method_index as int, expect_static),
{
    let flags = class_files[target].methods[method_index].access_flags;
    if flags.check_flag(MethodAccessFlags::STATIC_FLAG) != expect_static {
        return CallCheck::IncompatibleClassChange;
    }
    proof {
        assert(class_files@[current as int].wf());
        assert(class_files@[target as int].wf());
    }
    let current_name = match class_files[current].get_class_name() {
        Some(n) => n,
        None => vstd::pervasive::unreached(),
    };
    let target_name = match class_files[target].get_class_name() {
        Some(n) => n,
        None => vstd::pervasive::unreached(),
    };
    let access = AccessLevel::from(flags);
    if !check_has_access(hierarchy, current, current_name, target, target_name, access) {
        return CallCheck::IllegalAccess;
    }
    CallCheck::Allowed
}

/// What an invocation leaves to do.
#[derive(Debug)]
pub enum InvokeStep {
    /// A frame for the method was pushed: the thread goes on in it.
    Pushed,
    /// The method is native: it is to be run with these parameters.
    Native(Vec<JvmValue>),
}

/// Starts method `method_index` of `class_file` (the class `class`) with
/// `params`: a method with code gets a fresh frame on top of `thread`; one
/// without code must be native, and is handed back to be run natively.
pub fn invoke_method(
    thread: &mut JvmThread,
    class: ClassId,
    class_file: &ClassFile,
    bytecode_index: Option<usize>,
    method_index: usize,
    params: Vec<JvmValue>,
) -> (res: JvmResult<InvokeStep>)
    requires
        class_file.wf(),
        method_index < class_file.methods@.len(),
        ({
            let m = class_file.methods@[method_index as int];
            match bytecode_index {
                Some(b) => {
                    &&& b < m.attributes@.len()
                    &&& m.attributes@[b as int] is Code
                    &&& params@.len() <= m.attributes@[b as int]->Code_0.max_locals
                    &&& cp_utf8(class_file.constant_pool@, m.descriptor_index as int) is Some
                },
                None => !flag_set(m.access_flags@, MethodAccessFlags::NATIVE_FLAG) ==> {
                    &&& cp_utf8(class_file.constant_pool@, m.name_index as int) is Some
                    &&& cp_utf8(class_file.constant_pool@, m.descriptor_index as int) is Some
                },
            }
        }),
    ensures
        ({
            let m = class_file.methods@[method_index as int];
            match bytecode_index {
                Some(b) => {
                    &&& res matches Ok(InvokeStep::Pushed)
                    &&& final(thread)@.len() == old(thread)@.len() + 1
                    &&& final(thread)@.drop_last() == old(thread)@
                    &&& is_fresh_frame(final(thread)@.last(), class, *class_file, method_index, b, params@)
                },
                None => {
                    &&& final(thread)@ == old(thread)@
                    &&& if flag_set(m.access_flags@, MethodAccessFlags::NATIVE_FLAG) {
                        res matches Ok(InvokeStep::Native(p)) && p@ == params@
                    } else {
                        res matches Err(e) && (*e matches JvmError::ExpectedNativeMethod {
                            method_name: n,
                            method_descriptor: d,
                        } && n@ == cp_utf8(class_file.constant_pool@, m.name_index as int).unwrap()
                            && d@ == cp_utf8(class_file.constant_pool@, m.descriptor_index as int).unwrap())
                    }
                },
            }
        }),
{
    match bytecode_index {
        Some(bytecode_index) => {
            let frame = JvmStackFrame::new(class, class_file, method_index, bytecode_index, params);
            thread.push(frame);
            Ok(InvokeStep::Pushed)
        },
        None => {
            let method = &class_file.methods[method_index];
            if !method.access_flags.check_flag(MethodAccessFlags::NATIVE_FLAG) {
                let name = match class_file.constant_pool.get_utf8(method.name_index) {
                    Some(n) => n,
                    None => vstd::pervasive::unreached(),
                };
                let descriptor = match class_file.constant_pool.get_utf8(method.descriptor_index) {
                    Some(d) => d,
                    None => vstd::pervasive::unreached(),
                };
                return Err(
                    JvmError::ExpectedNativeMethod {
                        method_name: name.to_owned(),
                        method_descriptor: descriptor.to_owned(),
                    }.bx(),
                );
            }
            Ok(InvokeStep::Native(params))
        },
    }
}

/// The class, method name and descriptor that the method reference at
/// `method_ref` of `class_file`'s constant pool names.
pub fn read_method_ref(class_file: &ClassFile, method_ref: usize) -> (res: JvmResult<(&str, &str, &str)>)
    requires
        cp_wf(class_file.constant_pool@),
        valid_cp_index(class_file.constant_pool@.len() as int, method_ref),
    ensures
        ({
            let cp = class_file.constant_pool@;
            let named = match cp_method_ref(cp, method_ref as int) {
                Some((c, n)) => cp_member(cp, c as int, n as int),
                None => None,
            };
            match res {
                Ok(t) => named == opt_text3(Some(t)),
                Err(e) => named is None && *e == JvmError::InvalidMethodRefIndex(method_ref),
            }
        }),
{
    match class_file.constant_pool.get_class_methodname_descriptor(method_ref) {
        Some(called_method) => Ok(called_method),
        None => Err(JvmError::InvalidMethodRefIndex(method_ref).bx()),
    }
}

/// The interface, method name and descriptor that the interface method
/// reference at `interface_method_ref` of `class_file`'s constant pool names.
pub fn read_interface_method_ref(class_file: &ClassFile, interface_method_ref: usize) -> (res: JvmResult<
    (&str, &str, &str),
>)
    requires
        cp_wf(class_file.constant_pool@),
        valid_cp_index(class_file.constant_pool@.len() as int, interface_method_ref),
    ensures
        ({
            let cp = class_file.constant_pool@;
            let named = match cp_interface_method_ref(cp, interface_method_ref as int) {
                Some((c, n)) => cp_member(cp, c as int, n as int),
                None => None,
            };
            match res {
                Ok(t) => named == opt_text3(Some(t)),
                Err(e) => named is None && *e == JvmError::InvalidInterfaceMethodRefIndex(interface_method_ref),
            }
        }),
{
    match class_file.constant_pool.get_interface_method(interface_method_ref) {
        Some(info) => Ok(info),
        None => Err(JvmError::InvalidInterfaceMethodRefIndex(interface_method_ref).bx()),
    }
}

/// The method that `invokestatic` or `invokespecial` calls: the one of the
/// class file of `class_name` with this name and descriptor, with the
/// position of its `Code` attribute.
pub fn find_called_method(
    class_file: &ClassFile,
    class_name: &str,
    method_name: &str,
    method_descriptor: &str,
) -> (res: JvmResult<(usize, Option<usize>)>)
    requires
        class_file.wf(),
    ensures
        match class_file.find_method(method_name@, method_descriptor@, 0) {
            Some((m, b)) => res matches Ok((rm, rb)) && rm == m && opt_int(rb) == b,
            None => res matches Err(e) && (*e matches JvmError::MethodNotFound { class_name: c, method_name: n }
                && c@ == class_name@ && n@ == method_name@),
        },
{
    match class_file.get_method_and_bytecode_index(method_name, method_descriptor) {
        Some(index) => Ok(index),
        None => Err(
            JvmError::MethodNotFound {
                class_name: class_name.to_owned(),
                method_name: method_name.to_owned(),
            }.bx(),
        ),
    }
}

/// Along the super chain from `x`, a class that `c0` extends, the method
/// found is declared by a class that `c0` extends.
proof fn lemma_chain_method_inherited(
    hierarchy: ClassHierarchy,
    classes: Seq<ClassFile>,
    c0: int,
    x: int,
    name: Seq<char>,
    descriptor: Seq<char>,
)
    requires
        classes_match(hierarchy, classes),
        0 <= x < hierarchy.supers().len(),
        subclass_of(hierarchy.supers(), hierarchy.ifaces(), x, c0),
    ensures
        chain_method(classes, hierarchy.supers(), x, name, descriptor) matches Some((d, m, b)) ==> {
            &&& subclass_of(hierarchy.supers(), hierarchy.ifaces(), d, c0)
            &&& concrete_method(classes[d], name, descriptor) == Some((m, b))
        },
    decreases x,
{
    let supers = hierarchy.supers();
    let ifaces = hierarchy.ifaces();
    if concrete_method(classes[x], name, descriptor) is None {
        if let Some(s) = supers[x] {
            hierarchy.lemma_loaded_before(x as usize);
            assert(extends_directly(supers, ifaces, x, s as int));
            lemma_chain_extend(supers, ifaces, c0, x, s as int);
            lemma_chain_method_inherited(hierarchy, classes, c0, s as int, name, descriptor);
        }
    }
}

/// Among interfaces `list` that `c0` extends, the default method found is
/// declared by an interface that `c0` extends.
proof fn lemma_interfaces_method_inherited(
    hierarchy: ClassHierarchy,
    classes: Seq<ClassFile>,
    c0: int,
    list: Seq<ClassId>,
    bound: int,
    name: Seq<char>,
    descriptor: Seq<char>,
)
    requires
        classes_match(hierarchy, classes),
        bound <= hierarchy.supers().len(),
        forall|k: int| 0 <= k < list.len() ==> subclass_of(hierarchy.supers(), hierarchy.ifaces(), #[trigger] list[k] as int, c0),
    ensures
        interfaces_method(classes, hierarchy.ifaces(), list, bound, name, descriptor) matches Some((d, m, b)) ==> {
            &&& subclass_of(hierarchy.supers(), hierarchy.ifaces(), d, c0)
            &&& concrete_method(classes[d], name, descriptor) == Some((m, b))
        },
    decreases bound, list.len(),
{
    let supers = hierarchy.supers();
    let ifaces = hierarchy.ifaces();
    if list.len() > 0 {
        let i = list[0] as int;
        assert(subclass_of(supers, ifaces, list[0] as int, c0));
        if i < bound && concrete_method(classes[i], name, descriptor) is None {
            hierarchy.lemma_loaded_before(i as usize);
            let inner = ifaces[i];
            assert forall|k: int| 0 <= k < inner.len() implies subclass_of(supers, ifaces, #[trigger] inner[k] as int, c0) by {
                assert(extends_directly(supers, ifaces, i, inner[k] as int));
                lemma_chain_extend(supers, ifaces, c0, i, inner[k] as int);
            }
            lemma_interfaces_method_inherited(hierarchy, classes, c0, inner, i, name, descriptor);
            let rest = list.drop_first();
            assert forall|k: int| 0 <= k < rest.len() implies subclass_of(supers, ifaces, #[trigger] rest[k] as int, c0) by {
                assert(rest[k] == list[k + 1]);
            }
            lemma_interfaces_method_inherited(hierarchy, classes, c0, rest, bound, name, descriptor);
        }
    }
}

/// Along the super chain from `x`, a class that `c0` extends, the default
/// method found is declared by an interface that `c0` extends.
proof fn lemma_chain_default_method_inherited(
    hierarchy: ClassHierarchy,
    classes: Seq<ClassFile>,
    c0: int,
    x: int,
    name: Seq<char>,
    descriptor: Seq<char>,
)
    requires
        classes_match(hierarchy, classes),
        0 <= x < hierarchy.supers().len(),
        subclass_of(hierarchy.supers(), hierarchy.ifaces(), x, c0),
    ensures
        chain_default_method(classes, hierarchy.supers(), hierarchy.ifaces(), x, name, descriptor) matches Some(
            (d, m, b),
        ) ==> {
            &&& subclass_of(hierarchy.supers(), hierarchy.ifaces(), d, c0)
            &&& concrete_method(classes[d], name, descriptor) == Some((m, b))
        },
    decreases x,
{
    let supers = hierarchy.supers();
    let ifaces = hierarchy.ifaces();
    hierarchy.lemma_loaded_before(x as usize);
    let own = ifaces[x];
    assert forall|k: int| 0 <= k < own.len() implies subclass_of(supers, ifaces, #[trigger] own[k] as int, c0) by {
        assert(extends_directly(supers, ifaces, x, own[k] as int));
        lemma_chain_extend(supers, ifaces, c0, x, own[k] as int);
    }
    lemma_interfaces_method_inherited(hierarchy, classes, c0, own, x, name, descriptor);
    if let Some(s) = supers[x] {
        assert(extends_directly(supers, ifaces, x, s as int));
        lemma_chain_extend(supers, ifaces, c0, x, s as int);
        lemma_chain_default_method_inherited(hierarchy, classes, c0, s as int, name, descriptor);
    }
}

/// A virtual call runs a concrete method with the name and descriptor that
/// the call names, declared by the class of the object, by a class it
/// extends or by an interface it implements.
pub proof fn lemma_virtual_method_is_inherited(
    hierarchy: ClassHierarchy,
    classes: Seq<ClassFile>,
    c: int,
    name: Seq<char>,
    descriptor: Seq<char>,
)
    requires
        classes_match(hierarchy, classes),
        0 <= c < hierarchy.supers().len(),
    ensures
        virtual_method_of(classes, hierarchy.supers(), hierarchy.ifaces(), c, name, descriptor) matches Some(
            (d, m, b),
        ) ==> {
            &&& subclass_of(hierarchy.supers(), hierarchy.ifaces(), d, c)
            &&& concrete_method(classes[d], name, descriptor) == Some((m, b))
        },
{
    lemma_chain_single(hierarchy.supers(), hierarchy.ifaces(), c);
    lemma_chain_method_inherited(hierarchy, classes, c, c, name, descriptor);
    lemma_chain_default_method_inherited(hierarchy, classes, c, c, name, descriptor);
}


/// A class's own concrete method overrides everything it inherits: where the
/// class `c` itself declares a concrete method with the name and
/// descriptor, a virtual call on an object of `c` runs that one, not a
/// method of a super class and not a default method of an interface.
pub proof fn lemma_own_method_overrides(
    classes: Seq<ClassFile>,
    supers: Seq<Option<ClassId>>,
    ifaces: Seq<Seq<ClassId>>,
    c: int,
    name: Seq<char>,
    descriptor: Seq<char>,
    m: int,
    b: Option<int>,
)
    requires
        concrete_method(classes[c], name, descriptor) == Some((m, b)),
    ensures
        virtual_method_of(classes, supers, ifaces, c, name, descriptor) == Some((c, m, b)),
{
}

/// Methods of classes come before default methods of interfaces: where a
/// class on the super chain of `c` declares a concrete method with the name
/// and descriptor, a virtual call on an object of `c` runs the one of the
/// nearest such class, whatever the interfaces along the chain declare.
pub proof fn lemma_class_methods_before_defaults(
    classes: Seq<ClassFile>,
    supers: Seq<Option<ClassId>>,
    ifaces: Seq<Seq<ClassId>>,
    c: int,
    name: Seq<char>,
    descriptor: Seq<char>,
)
    requires
        chain_method(classes, supers, c, name, descriptor) is Some,
    ensures
        virtual_method_of(classes, supers, ifaces, c, name, descriptor) == chain_method(
            classes,
            supers,
            c,
            name,
            descriptor,
        ),
{
}

/// A class that declares no concrete method with the name and descriptor
/// inherits the one of its super class, where the super class's chain has
/// one: the nearest class up the chain that declares one wins.
pub proof fn lemma_inherited_from_super(
    classes: Seq<ClassFile>,
    supers: Seq<Option<ClassId>>,
    ifaces: Seq<Seq<ClassId>>,
    c: int,
    s: ClassId,
    name: Seq<char>,
    descriptor: Seq<char>,
)
    requires
        concrete_method(classes[c], name, descriptor) is None,
        supers[c] == Some(s),
        s < c,
        chain_method(classes, supers, s as int, name, descriptor) is Some,
    ensures
        virtual_method_of(classes, supers, ifaces, c, name, descriptor) == virtual_method_of(
            classes,
            supers,
            ifaces,
            s as int,
            name,
            descriptor,
        ),
{
}

} // verus!

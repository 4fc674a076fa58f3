//! The instructions that resolve a constant pool entry before they run: the
//! invoke and field instructions. Each is a step from the frame, the
//! running class's cache and the loaded classes to what the interpreter does
//! next: load a class by name, run a class's initialisers and come back to
//! the instruction, throw, call a method, or go on.
use vstd::prelude::*;

use crate::bytecode::method_descriptor_parser::{
    call_params, parameter_types, pop_params, pop_params_for_special, pop_params_state, poppable,
};
use crate::bytecode::method_instructions::{
    CallCheck, call_check, check_invoked_method, classes_match, entry_view, find_called_method,
    lemma_virtual_method_is_inherited, read_interface_method_ref, read_method_ref, resolve_virtual_method,
    virtual_method_of, concrete_method,
};
use crate::bytecode::field_instructions::class_name_of;
use crate::bytecode::{
    JvmException, popped, same_activation, spec_pop_reference, spec_u16_at, stack_usable, unbox,
    validate_cp_index,
};
use crate::class_cache::{CacheEntry, ClassCache};
use crate::class_file::{ClassFile, cp_class_name, cp_interface_method_ref, cp_member, cp_method_ref, opt_int};
use crate::jvm_cache::method_call_cache::{InterfaceMethodCallInfo, StaticMethodCallInfo, VirtualMethodCallInfo};
use crate::jvm_cache::method_signature_cache::{MethodSignatureCache, MethodSignatureId, registered};
use crate::jvm_heap::{JvmHeap, live};
use crate::jvm_model::{FieldInfo, HeapObject, JvmType, StaticFieldInfo, type_of, value_matches};
use crate::bytecode::access_check::{AccessLevel, access_level_of, check_has_access, has_access};
use crate::bytecode::field_instructions::{field_position, find_field_index, find_static_field_class_with_index, get_static, put_static, static_field_owner};
use crate::bytecode::spec_pop_any;
use crate::class_cache::{FieldAccessInfo, TypeInfo};
use crate::bytecode::read_class_type;
use crate::bytecode::references_instructions::{
    TypeName, determine_type_and_dimension_if_array, type_and_dimension, type_name_checked, type_name_well_formed,
};
use crate::jvm_model::{ObjectArrayType, CLASS_CLASS_NAME, STRING_CLASS_NAME};
use crate::bytecode::constants_instructions::LdcStep;
use crate::class_file::{FieldAccessFlags, cp_field_ref};
use crate::class_hierarchy::subclass_of;
use crate::v_table::{VTable, VTableEntry};
use crate::jvm_model::{ClassId, DescriptorType, JvmError, JvmResult, JvmStackFrame, JvmValue};
use crate::class_hierarchy::ClassHierarchy;
use crate::text::str_equal;
use std::rc::Rc;

verus! {

/// What the interpreter does after a resolving step.
#[derive(Debug)]
pub enum ResolveAction {
    /// Load the class of this name, then run the step again with it.
    Load(String),
    /// Run the initialisers of this class; the program counter was moved
    /// back onto the opcode, so the instruction runs again afterwards.
    InitialiseAndRewind(ClassId),
    /// Throw the exception; the program counter stands just behind the
    /// opcode.
    Throw(JvmException),
    /// Start this method with these arguments.
    Invoke { class: ClassId, method_index: usize, bytecode_index: Option<usize>, params: Vec<JvmValue> },
    /// The class constant is resolved to this type: `new`, `anewarray` or
    /// `instanceof` goes on with it.
    Type(TypeInfo),
    /// The field at this position among an object's fields, of this type,
    /// is resolved: `getfield` or `putfield` goes on with it.
    Field { field_index: usize, descriptor: DescriptorType },
    /// The instruction is done.
    Done,
}

/// The loaded classes agree with their hierarchy, and each class file is
/// well formed and names its class.
pub open spec fn classes_loaded(hierarchy: ClassHierarchy, class_files: Seq<ClassFile>) -> bool {
    &&& classes_match(hierarchy, class_files)
    &&& forall|c: int|
        0 <= c < class_files.len() ==> #[trigger] cp_class_name(
            class_files[c].constant_pool@,
            class_files[c].class_index as int,
        ) is Some
}

/// The loaded classes are as `classes_loaded` says, and each has an
/// initialisation flag.
pub open spec fn classes_ready(hierarchy: ClassHierarchy, class_files: Seq<ClassFile>, initialised: Seq<bool>) -> bool {
    &&& classes_loaded(hierarchy, class_files)
    &&& initialised.len() == class_files.len()
}

/// Every resolved call in `cache` takes only arguments that can be taken off
/// the stack, and an interface call names one of the `classes` loaded
/// classes.
pub open spec fn calls_valid(cache: ClassCache, classes: int) -> bool {
    forall|j: u16| #[trigger] call_valid(cache.entry(j), classes)
}

/// All of `types` can be taken off the stack.
pub open spec fn all_poppable(types: Seq<DescriptorType>) -> bool {
    forall|k: int| 0 <= k < types.len() ==> poppable(#[trigger] types[k])
}

/// A cache entry that is no call, or a call as `calls_valid` says.
pub open spec fn call_valid(entry: Option<CacheEntry>, classes: int) -> bool {
    match entry {
        Some(CacheEntry::StaticMethodCall(info)) => all_poppable(info.parameter_list@),
        Some(CacheEntry::VirtualMethodCall(info)) => all_poppable(info.parameter_list@),
        Some(CacheEntry::InterfaceMethodCall(info)) => all_poppable(info.parameter_list@) && info.interface < classes,
        _ => true,
    }
}

/// Taking the arguments of a call with parameter types `types` (the last one
/// first) off the stack `s`, and for an instance method (`instance`) the
/// object reference below them: the arguments in parameter order, the object
/// first, or `None` where the object reference is null; and the stack left.
pub open spec fn call_arguments(s: Seq<JvmValue>, types: Seq<DescriptorType>, instance: bool) -> (
    Result<Option<Seq<JvmValue>>, JvmError>,
    Seq<JvmValue>,
) {
    let (r, s1) = pop_params_state(types, s, types.len() as int);
    match r {
        Err(e) => (Err(e), s1),
        Ok(p) => if !instance {
            (Ok(Some(p)), s1)
        } else {
            match spec_pop_reference(s1) {
                Err(e) => (Err(e), popped(s1)),
                Ok(None) => (Ok(None), popped(s1)),
                Ok(Some(o)) => (Ok(Some(seq![JvmValue::Reference(Some(o))] + p)), popped(s1)),
            }
        },
    }
}

/// The frame `b` becomes `a` when a call of method `method_index` of class
/// `class` (code at `bytecode_index`) with parameter types `types`, from an
/// instruction of `size` bytes, takes its arguments off the stack: the
/// outcome is the call, the error met, or a `NullPointerException` for a
/// null object.
pub open spec fn calls(
    b: JvmStackFrame,
    a: JvmStackFrame,
    class: ClassId,
    method_index: int,
    bytecode_index: Option<int>,
    types: Seq<DescriptorType>,
    instance: bool,
    size: int,
    res: Result<ResolveAction, JvmError>,
) -> bool {
    let (r, s) = call_arguments(b.operand_stack@, types, instance);
    &&& same_activation(b, a)
    &&& a.local_variables@ == b.local_variables@
    &&& a.operand_stack@ == s
    &&& match r {
        Err(e) => res == Err::<ResolveAction, JvmError>(e) && a.program_counter == b.program_counter,
        Ok(None) => res == Ok::<ResolveAction, JvmError>(ResolveAction::Throw(JvmException::NullPointer))
            && a.program_counter == b.program_counter,
        Ok(Some(p)) => {
            &&& res matches Ok(
                ResolveAction::Invoke { class: c, method_index: m, bytecode_index: x, params: v },
            )
            &&& c == class && m == method_index && opt_int(x) == bytecode_index && v@ == p
            &&& a.program_counter == b.program_counter + size - 1
        },
    }
}

/// Takes the arguments of a call off the stack, and for an instance method
/// the object reference below them.
fn pop_call_arguments(frame: &mut JvmStackFrame, types: &Vec<DescriptorType>, instance: bool) -> (res: JvmResult<
    Option<Vec<JvmValue>>,
>)
    requires
        stack_usable(*old(frame)),
        forall|i: int| 0 <= i < types@.len() ==> poppable(#[trigger] types@[i]),
    ensures
        stack_usable(*final(frame)),
        same_activation(*old(frame), *final(frame)),
        final(frame).local_variables@ == old(frame).local_variables@,
        final(frame).program_counter == old(frame).program_counter,
        ({
            let (r, s) = call_arguments(old(frame).operand_stack@, types@, instance);
            &&& final(frame).operand_stack@ == s
            &&& match r {
                Err(e) => res matches Err(b) && *b == e,
                Ok(None) => res matches Ok(None),
                Ok(Some(p)) => res matches Ok(Some(v)) && v@ == p,
            }
        }),
{
    if instance {
        pop_params_for_special(types.as_slice(), frame)
    } else {
        match pop_params(types.as_slice(), frame) {
            Ok(params) => Ok(Some(params)),
            Err(e) => Err(e),
        }
    }
}

/// Calls what `pop_call_arguments` gave: the method, or a
/// `NullPointerException` for a null object; the program counter moves past
/// the operands (of an instruction of `size` bytes) only for the call.
fn call_with(
    frame: &mut JvmStackFrame,
    class: ClassId,
    method_index: usize,
    bytecode_index: Option<usize>,
    types: &Vec<DescriptorType>,
    instance: bool,
    size: usize,
) -> (res: JvmResult<ResolveAction>)
    requires
        stack_usable(*old(frame)),
        forall|i: int| 0 <= i < types@.len() ==> poppable(#[trigger] types@[i]),
        1 <= size <= 5,
        old(frame).program_counter + size - 1 <= usize::MAX,
    ensures
        stack_usable(*final(frame)),
        calls(
            *old(frame),
            *final(frame),
            class,
            method_index as int,
            opt_int(bytecode_index),
            types@,
            instance,
            size as int,
            unbox(res),
        ),
{
    match pop_call_arguments(frame, types, instance) {
        Err(e) => Err(e),
        Ok(None) => Ok(ResolveAction::Throw(JvmException::NullPointer)),
        Ok(Some(params)) => {
            frame.program_counter = frame.program_counter + (size - 1);
            Ok(ResolveAction::Invoke { class, method_index, bytecode_index, params })
        },
    }
}

/// A copy of a list of parameter types.
fn copy_types(types: &Vec<DescriptorType>) -> (res: Vec<DescriptorType>)
    ensures
        res@ == types@,
{
    let mut res: Vec<DescriptorType> = Vec::new();
    let mut i: usize = 0;
    while i < types.len()
        invariant
            i <= types@.len(),
            res@ == types@.subrange(0, i as int),
        decreases types@.len() - i,
    {
        res.push(types[i]);
        i += 1;
        proof {
            assert(res@ =~= types@.subrange(0, i as int));
        }
    }
    proof {
        assert(res@ =~= types@);
    }
    res
}

/// The class, method name and descriptor that the method reference at
/// `index` of the pool `cp` names, where it is one.
pub open spec fn named_method(cp: Seq<crate::class_file::ConstantValueV>, index: int) -> Option<
    (Seq<char>, Seq<char>, Seq<char>),
> {
    match cp_method_ref(cp, index) {
        Some((c, n)) => cp_member(cp, c as int, n as int),
        None => None,
    }
}

/// `loaded` is a loaded class named `name`.
pub open spec fn loaded_as(class_files: Seq<ClassFile>, loaded: Option<ClassId>, name: Seq<char>) -> bool {
    loaded matches Some(l) && l < class_files.len() && class_name_of(class_files[l as int]) == name
}

/// Whether `loaded` is a loaded class named `name`.
fn is_loaded_as(class_files: &Vec<ClassFile>, loaded: Option<ClassId>, name: &str) -> (res: bool)
    requires
        forall|c: int| 0 <= c < class_files@.len() ==> (#[trigger] class_files@[c]).wf(),
        forall|c: int|
            0 <= c < class_files@.len() ==> #[trigger] cp_class_name(
                class_files@[c].constant_pool@,
                class_files@[c].class_index as int,
            ) is Some,
    ensures
        res == loaded_as(class_files@, loaded, name@),
{
    match loaded {
        Some(l) => if l < class_files.len() {
            match class_files[l].get_class_name() {
                Some(n) => str_equal(n, name),
                None => false,
            }
        } else {
            false
        },
        None => false,
    }
}

/// `invokestatic` (`is_special` false) and `invokespecial` (`is_special`
/// true) in the frame `frame`, whose code is `code`, with `cache` the cache
/// of the running class; `loaded` is the class that the last `Load` asked
/// for. A call registered in the cache is made at once. Otherwise the method
/// reference is read; its class is asked for until it is loaded; the method
/// is looked up and checked (static for `invokestatic`, an instance method
/// for `invokespecial`, and open to the caller); the call is registered;
/// a class not yet initialised is initialised first; then the arguments are
/// taken off the stack and the method is called.
pub fn invoke_static_or_special_step(
    frame: &mut JvmStackFrame,
    code: &[u8],
    cache: &mut ClassCache,
    hierarchy: &ClassHierarchy,
    class_files: &Vec<ClassFile>,
    initialised: &Vec<bool>,
    is_special: bool,
    loaded: Option<ClassId>,
) -> (res: JvmResult<ResolveAction>)
    requires
        stack_usable(*old(frame)),
        old(cache).wf(),
        calls_valid(*old(cache), class_files@.len() as int),
        classes_ready(*hierarchy, class_files@, initialised@),
        old(frame).class < class_files@.len(),
        1 <= old(frame).program_counter,
        old(frame).program_counter + 2 <= code@.len(),
    ensures
        stack_usable(*final(frame)),
        final(cache).wf(),
        calls_valid(*final(cache), class_files@.len() as int),
        ({
            let b = *old(frame);
            let a = *final(frame);
            let r = unbox(res);
            let cp_index = spec_u16_at(code@, b.program_counter as int);
            let cp = class_files@[b.class as int].constant_pool@;
            let unchanged = a == b && forall|j: u16| #[trigger] final(cache).entry(j) == old(cache).entry(j);
            match old(cache).entry(cp_index) {
                Some(CacheEntry::StaticMethodCall(info)) => {
                    &&& forall|j: u16| #[trigger] final(cache).entry(j) == old(cache).entry(j)
                    &&& calls(
                        b,
                        a,
                        info.class,
                        info.method_index as int,
                        opt_int(info.bytecode_index),
                        info.parameter_list@,
                        is_special,
                        3,
                        r,
                    )
                },
                _ => if cp_index == 0 {
                    r == Err::<ResolveAction, JvmError>(JvmError::InvalidConstantPoolIndex) && unchanged
                } else if cp_index >= cp.len() || named_method(cp, cp_index as int) is None {
                    r == Err::<ResolveAction, JvmError>(JvmError::InvalidMethodRefIndex(cp_index as usize))
                        && unchanged
                } else {
                    let (class_name, method_name, descriptor) = named_method(cp, cp_index as int).unwrap();
                    if !loaded_as(class_files@, loaded, class_name) {
                        unchanged && (r matches Ok(ResolveAction::Load(n)) && n@ == class_name)
                    } else {
                        let l = loaded.unwrap();
                        match class_files@[l as int].find_method(method_name, descriptor, 0) {
                            None => unchanged && (r matches Err(e) && e matches JvmError::MethodNotFound {
                                class_name: c,
                                method_name: m,
                            } && c@ == class_name && m@ == method_name),
                            Some((mi, bi)) => match call_check(
                                *hierarchy,
                                class_files@,
                                b.class,
                                l,
                                mi,
                                !is_special,
                            ) {
                                CallCheck::IncompatibleClassChange => unchanged && r == Ok::<
                                    ResolveAction,
                                    JvmError,
                                >(ResolveAction::Throw(JvmException::IncompatibleClassChange)),
                                CallCheck::IllegalAccess => unchanged && r == Ok::<ResolveAction, JvmError>(
                                    ResolveAction::Throw(JvmException::IllegalAccess),
                                ),
                                CallCheck::Allowed => match call_params(descriptor) {
                                    None => unchanged && (r matches Err(e) && e matches JvmError::InvalidMethodDescriptor(
                                        d,
                                    ) && d@ == descriptor),
                                    Some(types) => {
                                        &&& final(cache).entry(cp_index) matches Some(
                                            CacheEntry::StaticMethodCall(info),
                                        )
                                        &&& info.class == l && info.method_index == mi && opt_int(
                                            info.bytecode_index,
                                        ) == bi && info.parameter_list@ == types
                                        &&& forall|j: u16|
                                            j != cp_index ==> #[trigger] final(cache).entry(j) == old(
                                                cache,
                                            ).entry(j)
                                        &&& if !initialised@[l as int] {
                                            &&& r == Ok::<ResolveAction, JvmError>(
                                                ResolveAction::InitialiseAndRewind(l),
                                            )
                                            &&& a.program_counter == b.program_counter - 1
                                            &&& a.operand_stack@ == b.operand_stack@
                                            &&& a.local_variables@ == b.local_variables@
                                            &&& same_activation(b, a)
                                        } else {
                                            calls(b, a, l, mi, bi, types, is_special, 3, r)
                                        }
                                    },
                                },
                            },
                        }
                    }
                },
            }
        }),
{
    let pc = frame.program_counter;
    let cp_index: u16 = (((code[pc] as usize) * 256) + code[pc + 1] as usize) as u16;
    proof {
        assert(cp_index == spec_u16_at(code@, pc as int));
    }
    let current = frame.class;
    let ghost old_cache = *cache;
    let hit = match cache.get_static_method(cp_index) {
        Some(info) => Some((info.class, info.method_index, info.bytecode_index, copy_types(&info.parameter_list))),
        None => None,
    };
    if let Some((class, method_index, bytecode_index, types)) = hit {
        proof {
            assert(call_valid(old_cache.entry(cp_index), class_files@.len() as int));
        }
        return call_with(frame, class, method_index, bytecode_index, &types, is_special, 3);
    }
    let index = validate_cp_index(cp_index)?;
    let class_file = &class_files[current];
    if index >= class_file.constant_pool.len() {
        return Err(JvmError::InvalidMethodRefIndex(index).bx());
    }
    proof {
        assert(class_files@[current as int].wf());
    }
    let (class_name, method_name, descriptor) = read_method_ref(class_file, index)?;
    if !is_loaded_as(class_files, loaded, class_name) {
        return Ok(ResolveAction::Load(class_name.to_owned()));
    }
    let l = match loaded {
        Some(l) => l,
        None => vstd::pervasive::unreached(),
    };
    proof {
        assert(class_files@[l as int].wf());
    }
    let (method_index, bytecode_index) = find_called_method(&class_files[l], class_name, method_name, descriptor)?;
    proof {
        crate::class_file::lemma_found_method(class_files@[l as int], method_name@, descriptor@, 0);
        assert(cp_class_name(class_files@[current as int].constant_pool@, class_files@[current as int].class_index as int) is Some);
        assert(cp_class_name(class_files@[l as int].constant_pool@, class_files@[l as int].class_index as int) is Some);
    }
    match check_invoked_method(hierarchy, class_files, current, l, method_index, !is_special) {
        CallCheck::IncompatibleClassChange => {
            return Ok(ResolveAction::Throw(JvmException::IncompatibleClassChange));
        },
        CallCheck::IllegalAccess => {
            return Ok(ResolveAction::Throw(JvmException::IllegalAccess));
        },
        CallCheck::Allowed => {},
    }
    let types = parameter_types(descriptor)?;
    let registered = copy_types(&types);
    let ghost before = *cache;
    cache.register(
        cp_index,
        Rc::new(
            CacheEntry::StaticMethodCall(
                StaticMethodCallInfo { class: l, method_index, bytecode_index, parameter_list: registered },
            ),
        ),
    );
    proof {
        assert forall|j: u16| #[trigger] call_valid(cache.entry(j), class_files@.len() as int) by {
            if j != cp_index {
                assert(before.entry(j) == cache.entry(j));
                assert(call_valid(before.entry(j), class_files@.len() as int));
            }
        }
    }
    if !initialised[l] {
        frame.program_counter = pc - 1;
        return Ok(ResolveAction::InitialiseAndRewind(l));
    }
    call_with(frame, l, method_index, bytecode_index, &types, is_special, 3)
}


/// The virtual tables of the loaded classes, one per class, name methods
/// that exist.
pub open spec fn v_tables_valid(v_tables: Seq<VTable>, class_files: Seq<ClassFile>) -> bool {
    &&& v_tables.len() == class_files.len()
    &&& forall|c: int| 0 <= c < v_tables.len() ==> (#[trigger] v_tables[c]).wf()
    &&& forall|c: int, id: MethodSignatureId|
        0 <= c < v_tables.len() ==> #[trigger] entry_valid(v_tables[c].resolves(id), class_files)
}

/// No entry, or one that names a method of a loaded class.
pub open spec fn entry_valid(e: Option<VTableEntry>, class_files: Seq<ClassFile>) -> bool {
    e matches Some(x) ==> x.resolved_class < class_files.len() && x.method_index
        < class_files[x.resolved_class as int].methods@.len()
}

/// The method that a virtual call of `name` with `descriptor` on an object
/// of class `oc` runs: the one that the virtual table `table` of `oc` holds
/// for the signature `sig`, else the one that the hierarchy resolves.
pub open spec fn dispatch_target(
    hierarchy: ClassHierarchy,
    class_files: Seq<ClassFile>,
    table: VTable,
    sig: MethodSignatureId,
    oc: ClassId,
    name: Seq<char>,
    descriptor: Seq<char>,
) -> Option<(int, int, Option<int>)> {
    match table.resolves(sig) {
        Some(e) => Some(entry_view(e)),
        None => virtual_method_of(class_files, hierarchy.supers(), hierarchy.ifaces(), oc as int, name, descriptor),
    }
}

/// The class that a call on the object `o` looks its method up in: the
/// object's class, or `object_class` for an array.
pub open spec fn receiver_class(slots: Seq<Option<HeapObject>>, o: usize, object_class: ClassId) -> ClassId {
    match slots[o as int].unwrap() {
        HeapObject::Object { class, .. } => class,
        _ => object_class,
    }
}

/// What a virtual call of `name` with `descriptor` (parameter types `types`)
/// from the frame `b`, by an instruction of `size` bytes, comes to: the frame
/// becomes `a`, the virtual tables `vb` become `va` and the signature numbers
/// `sb` become `sa`, with the outcome `r`. The arguments and the object are
/// taken off the stack (a null object throws a `NullPointerException`); the
/// object's class must be `interface` or extend it, where one is given
/// (else an `IncompatibleClassChangeError` is thrown); the method is looked
/// up in the class's virtual table, else resolved and registered there; an
/// instance method that the caller may use is called.
pub open spec fn virtual_call_made(
    b: JvmStackFrame,
    a: JvmStackFrame,
    hierarchy: ClassHierarchy,
    class_files: Seq<ClassFile>,
    slots: Seq<Option<HeapObject>>,
    object_class: ClassId,
    interface: Option<ClassId>,
    vb: Seq<VTable>,
    va: Seq<VTable>,
    sb: MethodSignatureCache,
    sa: MethodSignatureCache,
    name: Seq<char>,
    descriptor: Seq<char>,
    types: Seq<DescriptorType>,
    size: int,
    r: Result<ResolveAction, JvmError>,
) -> bool {
    let (pr, s) = call_arguments(b.operand_stack@, types, true);
    let untouched = va == vb && sa == sb && a.program_counter == b.program_counter;
    &&& same_activation(b, a)
    &&& a.local_variables@ == b.local_variables@
    &&& a.operand_stack@ == s
    &&& match pr {
        Err(e) => r == Err::<ResolveAction, JvmError>(e) && untouched,
        Ok(None) => r == Ok::<ResolveAction, JvmError>(ResolveAction::Throw(JvmException::NullPointer)) && untouched,
        Ok(Some(p)) => {
            let o = p[0]->Reference_0->Some_0;
            if !live(slots, o) || receiver_class(slots, o, object_class) >= class_files.len() {
                r == Err::<ResolveAction, JvmError>(JvmError::InvalidReference) && untouched
            } else {
                let oc = receiver_class(slots, o, object_class);
                if interface matches Some(i) && !subclass_of(hierarchy.supers(), hierarchy.ifaces(), i as int, oc as int) {
                    r == Ok::<ResolveAction, JvmError>(ResolveAction::Throw(JvmException::IncompatibleClassChange))
                        && untouched
                } else {
                    let sig = sb.signature(name, descriptor);
                    &&& sa.names() == registered(sb.names(), name)
                    &&& sa.descriptors() == registered(sb.descriptors(), descriptor)
                    &&& va.len() == vb.len()
                    &&& forall|c: int| 0 <= c < vb.len() && c != oc ==> #[trigger] va[c] == vb[c]
                    &&& forall|id: MethodSignatureId| id != sig ==> #[trigger] va[oc as int].resolves(id) == vb[oc as int].resolves(id)
                    &&& match dispatch_target(hierarchy, class_files, vb[oc as int], sig, oc, name, descriptor) {
                        None => va[oc as int].resolves(sig) is None && a.program_counter == b.program_counter && (
                        r matches Err(e) && e matches JvmError::VirtualMethodError {
                            method_name: m,
                            method_descriptor: d,
                        } && m@ == name && d@ == descriptor),
                        Some((d, m, bi)) => {
                            &&& va[oc as int].resolves(sig) matches Some(e) && entry_view(e) == (d, m, bi)
                            &&& match call_check(hierarchy, class_files, b.class, d as ClassId, m, false) {
                                CallCheck::IncompatibleClassChange => r == Ok::<ResolveAction, JvmError>(
                                    ResolveAction::Throw(JvmException::IncompatibleClassChange),
                                ) && a.program_counter == b.program_counter,
                                CallCheck::IllegalAccess => r == Ok::<ResolveAction, JvmError>(
                                    ResolveAction::Throw(JvmException::IllegalAccess),
                                ) && a.program_counter == b.program_counter,
                                CallCheck::Allowed => {
                                    &&& r matches Ok(
                                        ResolveAction::Invoke { class: c, method_index: mi, bytecode_index: x, params: v },
                                    )
                                    &&& c == d && mi == m && opt_int(x) == bi && v@ == p
                                    &&& a.program_counter == b.program_counter + size - 1
                                },
                            }
                        },
                    }
                }
            }
        },
    }
}

/// Takes the arguments and the object of a virtual call off the stack and
/// makes the call, as `virtual_call_made` says.
fn finish_virtual_call(
    frame: &mut JvmStackFrame,
    v_tables: &mut Vec<VTable>,
    signatures: &mut MethodSignatureCache,
    heap: &JvmHeap,
    hierarchy: &ClassHierarchy,
    class_files: &Vec<ClassFile>,
    object_class: ClassId,
    interface: Option<ClassId>,
    name: &str,
    descriptor: &str,
    types: &Vec<DescriptorType>,
    size: usize,
) -> (res: JvmResult<ResolveAction>)
    requires
        stack_usable(*old(frame)),
        all_poppable(types@),
        classes_loaded(*hierarchy, class_files@),
        v_tables_valid(old(v_tables)@, class_files@),
        old(signatures).wf(),
        old(frame).class < class_files@.len(),
        object_class < class_files@.len(),
        interface matches Some(i) ==> i < class_files@.len(),
        1 <= size <= 5,
        old(frame).program_counter + size - 1 <= usize::MAX,
    ensures
        stack_usable(*final(frame)),
        v_tables_valid(final(v_tables)@, class_files@),
        final(signatures).wf(),
        virtual_call_made(
            *old(frame),
            *final(frame),
            *hierarchy,
            class_files@,
            heap@,
            object_class,
            interface,
            old(v_tables)@,
            final(v_tables)@,
            *old(signatures),
            *final(signatures),
            name@,
            descriptor@,
            types@,
            size as int,
            unbox(res),
        ),
{
    let params = match pop_call_arguments(frame, types, true) {
        Err(e) => return Err(e),
        Ok(None) => return Ok(ResolveAction::Throw(JvmException::NullPointer)),
        Ok(Some(params)) => params,
    };
    let o = match params[0] {
        JvmValue::Reference(Some(o)) => o,
        _ => vstd::pervasive::unreached(),
    };
    if !heap.is_live(o) {
        return Err(JvmError::InvalidReference.bx());
    }
    let oc = match heap.get(o) {
        HeapObject::Object { class, .. } => *class,
        _ => object_class,
    };
    if oc >= class_files.len() {
        return Err(JvmError::InvalidReference.bx());
    }
    if let Some(i) = interface {
        if !hierarchy.is_sublcass_of(i, oc) {
            return Ok(ResolveAction::Throw(JvmException::IncompatibleClassChange));
        }
    }
    let signature = signatures.get_id(name, descriptor);
    let ghost before = v_tables@;
    let entry = resolve_virtual_method(&mut v_tables[oc], signature, hierarchy, class_files, oc, name, descriptor)?;
    proof {
        lemma_virtual_method_is_inherited(*hierarchy, class_files@, oc as int, name@, descriptor@);
        assert(entry_valid(before[oc as int].resolves(signature), class_files@));
        if before[oc as int].resolves(signature) is None {
            let (d, m, bi) = virtual_method_of(class_files@, hierarchy.supers(), hierarchy.ifaces(), oc as int, name@, descriptor@).unwrap();
            hierarchy.lemma_ancestor_loaded_before(d, oc as int);
            crate::class_file::lemma_found_method(class_files@[d], name@, descriptor@, 0);
        }
        assert(entry.resolved_class < class_files@.len());
        assert(v_tables_valid(v_tables@, class_files@)) by {
            assert forall|c: int, id: MethodSignatureId| 0 <= c < v_tables@.len() implies #[trigger] entry_valid(v_tables@[c].resolves(id), class_files@) by {
                if c != oc || id != signature {
                    assert(entry_valid(before[c].resolves(id), class_files@));
                }
            }
        }
        assert(cp_class_name(class_files@[frame.class as int].constant_pool@, class_files@[frame.class as int].class_index as int) is Some);
        assert(cp_class_name(class_files@[entry.resolved_class as int].constant_pool@, class_files@[entry.resolved_class as int].class_index as int) is Some);
    }
    match check_invoked_method(hierarchy, class_files, frame.class, entry.resolved_class, entry.method_index, false) {
        CallCheck::IncompatibleClassChange => Ok(ResolveAction::Throw(JvmException::IncompatibleClassChange)),
        CallCheck::IllegalAccess => Ok(ResolveAction::Throw(JvmException::IllegalAccess)),
        CallCheck::Allowed => {
            frame.program_counter = frame.program_counter + (size - 1);
            Ok(
                ResolveAction::Invoke {
                    class: entry.resolved_class,
                    method_index: entry.method_index,
                    bytecode_index: entry.bytecode_index,
                    params,
                },
            )
        },
    }
}


/// `invokevirtual` in the frame `frame`, whose code is `code`, with `cache`
/// the cache of the running class, `v_tables` the virtual tables of the
/// loaded classes, `signatures` the numbers of the method signatures seen,
/// `object_class` the class `java/lang/Object` (which an array's methods
/// come from) and `loaded` the class that the last `Load` asked for. A call
/// registered in the cache names the method at once. Otherwise the method
/// reference is read; its class is asked for until it is loaded; the
/// parameter types are read and the call registered; a class not yet
/// initialised is initialised first. Then the call is made on the object's
/// class, as `virtual_call_made` says.
pub fn invoke_virtual_step(
    frame: &mut JvmStackFrame,
    code: &[u8],
    cache: &mut ClassCache,
    v_tables: &mut Vec<VTable>,
    signatures: &mut MethodSignatureCache,
    heap: &JvmHeap,
    hierarchy: &ClassHierarchy,
    class_files: &Vec<ClassFile>,
    initialised: &Vec<bool>,
    object_class: ClassId,
    loaded: Option<ClassId>,
) -> (res: JvmResult<ResolveAction>)
    requires
        stack_usable(*old(frame)),
        old(cache).wf(),
        calls_valid(*old(cache), class_files@.len() as int),
        classes_ready(*hierarchy, class_files@, initialised@),
        v_tables_valid(old(v_tables)@, class_files@),
        old(signatures).wf(),
        old(frame).class < class_files@.len(),
        object_class < class_files@.len(),
        1 <= old(frame).program_counter,
        old(frame).program_counter + 2 <= code@.len(),
    ensures
        stack_usable(*final(frame)),
        final(cache).wf(),
        calls_valid(*final(cache), class_files@.len() as int),
        v_tables_valid(final(v_tables)@, class_files@),
        final(signatures).wf(),
        ({
            let b = *old(frame);
            let a = *final(frame);
            let r = unbox(res);
            let cp_index = spec_u16_at(code@, b.program_counter as int);
            let cp = class_files@[b.class as int].constant_pool@;
            let untouched = final(v_tables)@ == old(v_tables)@ && *final(signatures) == *old(signatures);
            let unchanged = a == b && untouched && forall|j: u16| #[trigger] final(cache).entry(j) == old(cache).entry(j);
            let call = |n: Seq<char>, d: Seq<char>, types: Seq<DescriptorType>| virtual_call_made(
                b,
                a,
                *hierarchy,
                class_files@,
                heap@,
                object_class,
                None,
                old(v_tables)@,
                final(v_tables)@,
                *old(signatures),
                *final(signatures),
                n,
                d,
                types,
                3,
                r,
            );
            match old(cache).entry(cp_index) {
                Some(CacheEntry::VirtualMethodCall(info)) => {
                    &&& forall|j: u16| #[trigger] final(cache).entry(j) == old(cache).entry(j)
                    &&& call(info.method_name@, info.descriptor@, info.parameter_list@)
                },
                _ => if cp_index == 0 {
                    r == Err::<ResolveAction, JvmError>(JvmError::InvalidConstantPoolIndex) && unchanged
                } else if cp_index >= cp.len() || named_method(cp, cp_index as int) is None {
                    r == Err::<ResolveAction, JvmError>(JvmError::InvalidMethodRefIndex(cp_index as usize))
                        && unchanged
                } else {
                    let (class_name, method_name, descriptor) = named_method(cp, cp_index as int).unwrap();
                    if !loaded_as(class_files@, loaded, class_name) {
                        unchanged && (r matches Ok(ResolveAction::Load(n)) && n@ == class_name)
                    } else {
                        let l = loaded.unwrap();
                        match call_params(descriptor) {
                            None => unchanged && (r matches Err(e) && e matches JvmError::InvalidMethodDescriptor(d)
                                && d@ == descriptor),
                            Some(types) => {
                                &&& final(cache).entry(cp_index) matches Some(CacheEntry::VirtualMethodCall(info))
                                &&& info.method_name@ == method_name && info.descriptor@ == descriptor
                                    && info.parameter_list@ == types
                                &&& forall|j: u16|
                                    j != cp_index ==> #[trigger] final(cache).entry(j) == old(cache).entry(j)
                                &&& if !initialised@[l as int] {
                                    &&& r == Ok::<ResolveAction, JvmError>(ResolveAction::InitialiseAndRewind(l))
                                    &&& a.program_counter == b.program_counter - 1
                                    &&& a.operand_stack@ == b.operand_stack@
                                    &&& a.local_variables@ == b.local_variables@
                                    &&& same_activation(b, a)
                                    &&& untouched
                                } else {
                                    call(method_name, descriptor, types)
                                }
                            },
                        }
                    }
                },
            }
        }),
{
    let pc = frame.program_counter;
    let cp_index: u16 = (((code[pc] as usize) * 256) + code[pc + 1] as usize) as u16;
    proof {
        assert(cp_index == spec_u16_at(code@, pc as int));
    }
    let current = frame.class;
    let ghost old_cache = *cache;
    let hit = match cache.get_virtual_method(cp_index) {
        Some(info) => Some(
            (info.method_name.as_str().to_owned(), info.descriptor.as_str().to_owned(), copy_types(&info.parameter_list)),
        ),
        None => None,
    };
    if let Some((method_name, descriptor, types)) = hit {
        proof {
            assert(call_valid(old_cache.entry(cp_index), class_files@.len() as int));
        }
        return finish_virtual_call(
            frame,
            v_tables,
            signatures,
            heap,
            hierarchy,
            class_files,
            object_class,
            None,
            method_name.as_str(),
            descriptor.as_str(),
            &types,
            3,
        );
    }
    let index = validate_cp_index(cp_index)?;
    let class_file = &class_files[current];
    if index >= class_file.constant_pool.len() {
        return Err(JvmError::InvalidMethodRefIndex(index).bx());
    }
    proof {
        assert(class_files@[current as int].wf());
    }
    let (class_name, method_name, descriptor) = read_method_ref(class_file, index)?;
    if !is_loaded_as(class_files, loaded, class_name) {
        return Ok(ResolveAction::Load(class_name.to_owned()));
    }
    let l = match loaded {
        Some(l) => l,
        None => vstd::pervasive::unreached(),
    };
    let types = parameter_types(descriptor)?;
    let ghost before = *cache;
    cache.register(
        cp_index,
        Rc::new(
            CacheEntry::VirtualMethodCall(
                VirtualMethodCallInfo {
                    method_name: method_name.to_owned(),
                    descriptor: descriptor.to_owned(),
                    parameter_list: copy_types(&types),
                },
            ),
        ),
    );
    proof {
        assert forall|j: u16| #[trigger] call_valid(cache.entry(j), class_files@.len() as int) by {
            if j != cp_index {
                assert(before.entry(j) == cache.entry(j));
                assert(call_valid(before.entry(j), class_files@.len() as int));
            }
        }
    }
    if !initialised[l] {
        frame.program_counter = pc - 1;
        return Ok(ResolveAction::InitialiseAndRewind(l));
    }
    finish_virtual_call(
        frame,
        v_tables,
        signatures,
        heap,
        hierarchy,
        class_files,
        object_class,
        None,
        method_name,
        descriptor,
        &types,
        3,
    )
}


/// The interface, method name and descriptor that the interface method
/// reference at `index` of the pool `cp` names, where it is one.
pub open spec fn named_interface_method(cp: Seq<crate::class_file::ConstantValueV>, index: int) -> Option<
    (Seq<char>, Seq<char>, Seq<char>),
> {
    match cp_interface_method_ref(cp, index) {
        Some((c, n)) => cp_member(cp, c as int, n as int),
        None => None,
    }
}

/// `invokeinterface` in the frame `frame`, whose code is `code`, with the
/// rest as for [`invoke_virtual_step`]. The constant pool index must not be
/// 0. A call registered in the cache names the interface and the method at
/// once. Otherwise the interface method reference is read; the interface is
/// asked for until it is loaded, and initialised first where it is not yet;
/// the parameter types are read and the call registered. Then the call is
/// made on the object's class, which must implement the interface, as
/// `virtual_call_made` says.
pub fn invoke_interface_step(
    frame: &mut JvmStackFrame,
    code: &[u8],
    cache: &mut ClassCache,
    v_tables: &mut Vec<VTable>,
    signatures: &mut MethodSignatureCache,
    heap: &JvmHeap,
    hierarchy: &ClassHierarchy,
    class_files: &Vec<ClassFile>,
    initialised: &Vec<bool>,
    object_class: ClassId,
    loaded: Option<ClassId>,
) -> (res: JvmResult<ResolveAction>)
    requires
        stack_usable(*old(frame)),
        old(cache).wf(),
        calls_valid(*old(cache), class_files@.len() as int),
        classes_ready(*hierarchy, class_files@, initialised@),
        v_tables_valid(old(v_tables)@, class_files@),
        old(signatures).wf(),
        old(frame).class < class_files@.len(),
        object_class < class_files@.len(),
        1 <= old(frame).program_counter,
        old(frame).program_counter + 4 <= code@.len(),
    ensures
        stack_usable(*final(frame)),
        final(cache).wf(),
        calls_valid(*final(cache), class_files@.len() as int),
        v_tables_valid(final(v_tables)@, class_files@),
        final(signatures).wf(),
        ({
            let b = *old(frame);
            let a = *final(frame);
            let r = unbox(res);
            let cp_index = spec_u16_at(code@, b.program_counter as int);
            let cp = class_files@[b.class as int].constant_pool@;
            let untouched = final(v_tables)@ == old(v_tables)@ && *final(signatures) == *old(signatures);
            let unchanged = a == b && untouched && forall|j: u16| #[trigger] final(cache).entry(j) == old(cache).entry(j);
            let call = |i: ClassId, n: Seq<char>, d: Seq<char>, types: Seq<DescriptorType>| virtual_call_made(
                b,
                a,
                *hierarchy,
                class_files@,
                heap@,
                object_class,
                Some(i),
                old(v_tables)@,
                final(v_tables)@,
                *old(signatures),
                *final(signatures),
                n,
                d,
                types,
                5,
                r,
            );
            if cp_index == 0 {
                r == Err::<ResolveAction, JvmError>(JvmError::InvalidConstantPoolIndex) && unchanged
            } else {
                match old(cache).entry(cp_index) {
                    Some(CacheEntry::InterfaceMethodCall(info)) => {
                        &&& forall|j: u16| #[trigger] final(cache).entry(j) == old(cache).entry(j)
                        &&& call(info.interface, info.method_name@, info.descriptor@, info.parameter_list@)
                    },
                    _ => if cp_index >= cp.len() || named_interface_method(cp, cp_index as int) is None {
                        r == Err::<ResolveAction, JvmError>(
                            JvmError::InvalidInterfaceMethodRefIndex(cp_index as usize),
                        ) && unchanged
                    } else {
                        let (interface_name, method_name, descriptor) = named_interface_method(
                            cp,
                            cp_index as int,
                        ).unwrap();
                        if !loaded_as(class_files@, loaded, interface_name) {
                            unchanged && (r matches Ok(ResolveAction::Load(n)) && n@ == interface_name)
                        } else {
                            let l = loaded.unwrap();
                            if !initialised@[l as int] {
                                &&& r == Ok::<ResolveAction, JvmError>(ResolveAction::InitialiseAndRewind(l))
                                &&& a.program_counter == b.program_counter - 1
                                &&& a.operand_stack@ == b.operand_stack@
                                &&& a.local_variables@ == b.local_variables@
                                &&& same_activation(b, a)
                                &&& untouched
                                &&& forall|j: u16| #[trigger] final(cache).entry(j) == old(cache).entry(j)
                            } else {
                                match call_params(descriptor) {
                                    None => unchanged && (r matches Err(e) && e matches JvmError::InvalidMethodDescriptor(
                                        d,
                                    ) && d@ == descriptor),
                                    Some(types) => {
                                        &&& final(cache).entry(cp_index) matches Some(
                                            CacheEntry::InterfaceMethodCall(info),
                                        )
                                        &&& info.interface == l && info.method_name@ == method_name
                                            && info.descriptor@ == descriptor && info.parameter_list@ == types
                                        &&& forall|j: u16|
                                            j != cp_index ==> #[trigger] final(cache).entry(j) == old(
                                                cache,
                                            ).entry(j)
                                        &&& call(l, method_name, descriptor, types)
                                    },
                                }
                            }
                        }
                    },
                }
            }
        }),
{
    let pc = frame.program_counter;
    let cp_index: u16 = (((code[pc] as usize) * 256) + code[pc + 1] as usize) as u16;
    proof {
        assert(cp_index == spec_u16_at(code@, pc as int));
    }
    let index = validate_cp_index(cp_index)?;
    let current = frame.class;
    let ghost old_cache = *cache;
    let hit = match cache.get_interface_method(cp_index) {
        Some(info) => Some(
            (
                info.interface,
                info.method_name.as_str().to_owned(),
                info.descriptor.as_str().to_owned(),
                copy_types(&info.parameter_list),
            ),
        ),
        None => None,
    };
    if let Some((interface, method_name, descriptor, types)) = hit {
        proof {
            assert(call_valid(old_cache.entry(cp_index), class_files@.len() as int));
        }
        return finish_virtual_call(
            frame,
            v_tables,
            signatures,
            heap,
            hierarchy,
            class_files,
            object_class,
            Some(interface),
            method_name.as_str(),
            descriptor.as_str(),
            &types,
            5,
        );
    }
    let class_file = &class_files[current];
    if index >= class_file.constant_pool.len() {
        return Err(JvmError::InvalidInterfaceMethodRefIndex(index).bx());
    }
    proof {
        assert(class_files@[current as int].wf());
    }
    let (interface_name, method_name, descriptor) = read_interface_method_ref(class_file, index)?;
    if !is_loaded_as(class_files, loaded, interface_name) {
        return Ok(ResolveAction::Load(interface_name.to_owned()));
    }
    let l = match loaded {
        Some(l) => l,
        None => vstd::pervasive::unreached(),
    };
    if !initialised[l] {
        frame.program_counter = pc - 1;
        return Ok(ResolveAction::InitialiseAndRewind(l));
    }
    let types = parameter_types(descriptor)?;
    let ghost before = *cache;
    cache.register(
        cp_index,
        Rc::new(
            CacheEntry::InterfaceMethodCall(
                InterfaceMethodCallInfo {
                    interface: l,
                    method_name: method_name.to_owned(),
                    descriptor: descriptor.to_owned(),
                    parameter_list: copy_types(&types),
                },
            ),
        ),
    );
    proof {
        assert forall|j: u16| #[trigger] call_valid(cache.entry(j), class_files@.len() as int) by {
            if j != cp_index {
                assert(before.entry(j) == cache.entry(j));
                assert(call_valid(before.entry(j), class_files@.len() as int));
            }
        }
    }
    finish_virtual_call(
        frame,
        v_tables,
        signatures,
        heap,
        hierarchy,
        class_files,
        object_class,
        Some(l),
        method_name,
        descriptor,
        &types,
        5,
    )
}


/// The type that a value of a field of descriptor type `t` has on the stack.
pub open spec fn stack_type(t: DescriptorType) -> JvmType {
    match t {
        DescriptorType::Long => JvmType::Long,
        DescriptorType::Float => JvmType::Float,
        DescriptorType::Double => JvmType::Double,
        DescriptorType::Reference => JvmType::Reference,
        _ => JvmType::Int,
    }
}

/// The type that a value of a field of descriptor type `t` has on the stack.
fn stack_type_of(t: DescriptorType) -> (res: JvmType)
    ensures
        res == stack_type(t),
{
    match t {
        DescriptorType::Long => JvmType::Long,
        DescriptorType::Float => JvmType::Float,
        DescriptorType::Double => JvmType::Double,
        DescriptorType::Reference => JvmType::Reference,
        _ => JvmType::Int,
    }
}

/// Code of class `current` may use a member of class `owner` with the access
/// flags `flags`.
pub open spec fn may_use(
    hierarchy: ClassHierarchy,
    class_files: Seq<ClassFile>,
    current: ClassId,
    owner: ClassId,
    flags: u16,
) -> bool {
    has_access(
        hierarchy.supers(),
        hierarchy.ifaces(),
        current,
        owner,
        access_level_of(
            flags,
            FieldAccessFlags::PUBLIC_FLAG,
            FieldAccessFlags::PRIVATE_FLAG,
            FieldAccessFlags::PROTECTED_FLAG,
        ),
        class_name_of(class_files[current as int]),
        class_name_of(class_files[owner as int]),
    )
}

/// Whether code of class `current` may use a field of class `owner` with
/// the access flags `flags`.
fn may_use_field(
    hierarchy: &ClassHierarchy,
    class_files: &Vec<ClassFile>,
    current: ClassId,
    owner: ClassId,
    flags: FieldAccessFlags,
) -> (res: bool)
    requires
        classes_loaded(*hierarchy, class_files@),
        current < class_files@.len(),
        owner < class_files@.len(),
    ensures
        res == may_use(*hierarchy, class_files@, current, owner, flags@),
{
    proof {
        assert(class_files@[current as int].wf());
        assert(class_files@[owner as int].wf());
        assert(cp_class_name(class_files@[current as int].constant_pool@, class_files@[current as int].class_index as int) is Some);
        assert(cp_class_name(class_files@[owner as int].constant_pool@, class_files@[owner as int].class_index as int) is Some);
    }
    let current_name = match class_files[current].get_class_name() {
        Some(n) => n,
        None => vstd::pervasive::unreached(),
    };
    let owner_name = match class_files[owner].get_class_name() {
        Some(n) => n,
        None => vstd::pervasive::unreached(),
    };
    check_has_access(hierarchy, current, current_name, owner, owner_name, AccessLevel::from(flags))
}

/// The static fields known are those of loaded classes, each with a value
/// and with the position of a field of its class file.
pub open spec fn statics_valid(static_fields: Seq<Option<Vec<StaticFieldInfo>>>, class_files: Seq<ClassFile>) -> bool {
    &&& static_fields.len() == class_files.len()
    &&& forall|c: int, i: int|
        0 <= c < static_fields.len() && static_fields[c] is Some && 0 <= i < static_fields[c]->Some_0@.len()
            ==> #[trigger] static_field_valid(static_fields[c]->Some_0@[i], class_files[c])
}

/// The static field `f` of the class whose file is `cf` has a value, and
/// names a field of the class file.
pub open spec fn static_field_valid(f: StaticFieldInfo, cf: ClassFile) -> bool {
    !(f.value is Unusable) && f.field_class_file_index < cf.fields@.len()
}

/// Every static field access in `cache` names a static field that is known.
pub open spec fn static_accesses_valid(cache: ClassCache, static_fields: Seq<Option<Vec<StaticFieldInfo>>>) -> bool {
    forall|j: u16| #[trigger] static_access_valid(cache.entry(j), static_fields)
}

/// No static field access, or one of a known static field.
pub open spec fn static_access_valid(entry: Option<CacheEntry>, static_fields: Seq<Option<Vec<StaticFieldInfo>>>) -> bool {
    entry matches Some(CacheEntry::StaticFieldAccess(info)) ==> {
        &&& info.target_class < static_fields.len()
        &&& static_fields[info.target_class as int] is Some
        &&& info.field_index < static_fields[info.target_class as int]->Some_0@.len()
    }
}

/// What `getstatic` (`put` false) or `putstatic` does with the static field
/// `index` of class `owner`: the frame `b` becomes `a` and the static fields
/// `sb` become `sa`, with the outcome `r`. `getstatic` pushes the value;
/// `putstatic` pops a value of the field's type and stores it (a value of
/// another type is a type error, an empty stack an error).
pub open spec fn static_field_used(
    b: JvmStackFrame,
    a: JvmStackFrame,
    sb: Seq<Option<Vec<StaticFieldInfo>>>,
    sa: Seq<Option<Vec<StaticFieldInfo>>>,
    owner: int,
    index: int,
    put: bool,
    r: Result<ResolveAction, JvmError>,
) -> bool {
    let field = sb[owner]->Some_0@[index];
    let done = r == Ok::<ResolveAction, JvmError>(ResolveAction::Done) && a.program_counter == b.program_counter + 2
        && same_activation(b, a) && a.local_variables@ == b.local_variables@;
    if !put {
        done && a.operand_stack@ == b.operand_stack@.push(field.value) && sa == sb
    } else {
        match spec_pop_any(b.operand_stack@) {
            Err(e) => r == Err::<ResolveAction, JvmError>(e) && a == b && sa == sb,
            Ok(v) => if !value_matches(v, field.descriptor_type) {
                r == Err::<ResolveAction, JvmError>(
                    JvmError::TypeError { expected: stack_type(field.descriptor_type), found: type_of(v) },
                ) && a == b && sa == sb
            } else {
                &&& done
                &&& a.operand_stack@ == popped(b.operand_stack@)
                &&& sa.len() == sb.len()
                &&& forall|c: int| 0 <= c < sb.len() && c != owner ==> #[trigger] sa[c] == sb[c]
                &&& sa[owner] is Some
                &&& sa[owner]->Some_0@.len() == sb[owner]->Some_0@.len()
                &&& forall|k: int|
                    0 <= k < sb[owner]->Some_0@.len() && k != index ==> #[trigger] sa[owner]->Some_0@[k]
                        == sb[owner]->Some_0@[k]
                &&& sa[owner]->Some_0@[index].value == v
                &&& sa[owner]->Some_0@[index].name@ == field.name@
                &&& sa[owner]->Some_0@[index].descriptor_type == field.descriptor_type
                &&& sa[owner]->Some_0@[index].field_class_file_index == field.field_class_file_index
            },
        }
    }
}

/// Runs `getstatic` or `putstatic` on the static field `index` of class
/// `owner`, as `static_field_used` says.
fn use_static_field(
    frame: &mut JvmStackFrame,
    static_fields: &mut Vec<Option<Vec<StaticFieldInfo>>>,
    class_files: &Vec<ClassFile>,
    owner: ClassId,
    index: usize,
    put: bool,
) -> (res: JvmResult<ResolveAction>)
    requires
        stack_usable(*old(frame)),
        statics_valid(old(static_fields)@, class_files@),
        owner < old(static_fields)@.len(),
        old(static_fields)@[owner as int] is Some,
        index < old(static_fields)@[owner as int]->Some_0@.len(),
        old(frame).program_counter + 2 <= usize::MAX,
    ensures
        stack_usable(*final(frame)),
        statics_valid(final(static_fields)@, class_files@),
        static_field_used(
            *old(frame),
            *final(frame),
            old(static_fields)@,
            final(static_fields)@,
            owner as int,
            index as int,
            put,
            unbox(res),
        ),
{
    let ghost sb = static_fields@;
    proof {
        assert(static_field_valid(sb[owner as int]->Some_0@[index as int], class_files@[owner as int]));
    }
    if !put {
        match &static_fields[owner] {
            Some(fields) => {
                let _ = get_static(frame, &fields[index]);
            },
            None => vstd::pervasive::unreached(),
        }
        frame.program_counter = frame.program_counter + 2;
        return Ok(ResolveAction::Done);
    }
    let n = frame.operand_stack.len();
    if n == 0 {
        return Err(JvmError::NoOperandFound.bx());
    }
    let value = frame.operand_stack[n - 1];
    let descriptor = match &static_fields[owner] {
        Some(fields) => fields[index].descriptor_type,
        None => vstd::pervasive::unreached(),
    };
    if !value.matches_type(descriptor) {
        proof {
            assert(!(frame.operand_stack@[n - 1] is Unusable));
        }
        return Err(JvmError::TypeError { expected: stack_type_of(descriptor), found: value.get_type() }.bx());
    }
    let mut fields = match static_fields[owner].take() {
        Some(fields) => fields,
        None => vstd::pervasive::unreached(),
    };
    let mut field = fields.remove(index);
    let _ = put_static(frame, &mut field);
    fields.insert(index, field);
    static_fields.set(owner, Some(fields));
    frame.program_counter = frame.program_counter + 2;
    proof {
        assert(static_fields@[owner as int]->Some_0@ =~= sb[owner as int]->Some_0@.update(index as int, field));
        assert(statics_valid(static_fields@, class_files@)) by {
            assert forall|c: int, i: int|
                0 <= c < static_fields@.len() && static_fields@[c] is Some && 0 <= i < static_fields@[c]->Some_0@.len()
                    implies #[trigger] static_field_valid(static_fields@[c]->Some_0@[i], class_files@[c]) by {
                if c != owner || i != index {
                    assert(static_field_valid(sb[c]->Some_0@[i], class_files@[c]));
                }
            }
        }
    }
    Ok(ResolveAction::Done)
}


/// The class, field name and descriptor that the field reference at `index`
/// of the pool `cp` names, where it is one.
pub open spec fn named_field(cp: Seq<crate::class_file::ConstantValueV>, index: int) -> Option<
    (Seq<char>, Seq<char>, Seq<char>),
> {
    match cp_field_ref(cp, index) {
        Some((c, n)) => cp_member(cp, c as int, n as int),
        None => None,
    }
}

/// `getstatic` (`put` false) and `putstatic` (`put` true) in the frame
/// `frame`, whose code is `code`, with `cache` the cache of the running
/// class, `static_fields` the static fields of the loaded classes and
/// `loaded` the class that the last `Load` asked for. A field access
/// registered in the cache is made at once. Otherwise the field reference is
/// read; its class is asked for until it is loaded, and initialised first
/// where it is not yet; the field is looked up the class's super chain; a
/// field that the running class may not use throws an `IllegalAccessError`;
/// the access is made and, where it went through, registered.
pub fn static_field_step(
    frame: &mut JvmStackFrame,
    code: &[u8],
    cache: &mut ClassCache,
    hierarchy: &ClassHierarchy,
    class_files: &Vec<ClassFile>,
    initialised: &Vec<bool>,
    static_fields: &mut Vec<Option<Vec<StaticFieldInfo>>>,
    put: bool,
    loaded: Option<ClassId>,
) -> (res: JvmResult<ResolveAction>)
    requires
        stack_usable(*old(frame)),
        old(cache).wf(),
        static_accesses_valid(*old(cache), old(static_fields)@),
        classes_ready(*hierarchy, class_files@, initialised@),
        statics_valid(old(static_fields)@, class_files@),
        old(frame).class < class_files@.len(),
        1 <= old(frame).program_counter,
        old(frame).program_counter + 2 <= code@.len(),
    ensures
        stack_usable(*final(frame)),
        final(cache).wf(),
        static_accesses_valid(*final(cache), final(static_fields)@),
        statics_valid(final(static_fields)@, class_files@),
        ({
            let b = *old(frame);
            let a = *final(frame);
            let r = unbox(res);
            let sb = old(static_fields)@;
            let sa = final(static_fields)@;
            let cp_index = spec_u16_at(code@, b.program_counter as int);
            let cp = class_files@[b.class as int].constant_pool@;
            let same_cache = forall|j: u16| #[trigger] final(cache).entry(j) == old(cache).entry(j);
            let unchanged = a == b && sa == sb && same_cache;
            match old(cache).entry(cp_index) {
                Some(CacheEntry::StaticFieldAccess(info)) => same_cache && static_field_used(
                    b,
                    a,
                    sb,
                    sa,
                    info.target_class as int,
                    info.field_index as int,
                    put,
                    r,
                ),
                _ => if cp_index == 0 {
                    r == Err::<ResolveAction, JvmError>(JvmError::InvalidConstantPoolIndex) && unchanged
                } else if cp_index >= cp.len() || named_field(cp, cp_index as int) is None {
                    r == Err::<ResolveAction, JvmError>(JvmError::InvalidMethodRefIndex(cp_index as usize))
                        && unchanged
                } else {
                    let (class_name, field_name, _) = named_field(cp, cp_index as int).unwrap();
                    if !loaded_as(class_files@, loaded, class_name) {
                        unchanged && (r matches Ok(ResolveAction::Load(n)) && n@ == class_name)
                    } else {
                        let l = loaded.unwrap();
                        if !initialised@[l as int] {
                            &&& r == Ok::<ResolveAction, JvmError>(ResolveAction::InitialiseAndRewind(l))
                            &&& a.program_counter == b.program_counter - 1
                            &&& a.operand_stack@ == b.operand_stack@
                            &&& a.local_variables@ == b.local_variables@
                            &&& same_activation(b, a)
                            &&& sa == sb && same_cache
                        } else {
                            match static_field_owner(hierarchy.supers(), sb, l as int, field_name) {
                                Err(c) => unchanged && (r matches Err(e) && e matches JvmError::StaticFieldNotFound {
                                    class_name: n,
                                    field_name: f,
                                } && n@ == class_name_of(class_files@[c]) && f@ == field_name),
                                Ok((owner, index)) => {
                                    let file_index = sb[owner]->Some_0@[index].field_class_file_index;
                                    let flags = class_files@[owner].fields@[file_index as int].access_flags@;
                                    if !may_use(*hierarchy, class_files@, b.class, owner as ClassId, flags) {
                                        unchanged && r == Ok::<ResolveAction, JvmError>(
                                            ResolveAction::Throw(JvmException::IllegalAccess),
                                        )
                                    } else {
                                        &&& static_field_used(b, a, sb, sa, owner, index, put, r)
                                        &&& r is Ok ==> final(cache).entry(cp_index) == Some(
                                            CacheEntry::StaticFieldAccess(
                                                FieldAccessInfo {
                                                    target_class: owner as ClassId,
                                                    field_index: index as usize,
                                                },
                                            ),
                                        ) && forall|j: u16|
                                            j != cp_index ==> #[trigger] final(cache).entry(j) == old(cache).entry(j)
                                        &&& r is Err ==> same_cache
                                    }
                                },
                            }
                        }
                    }
                },
            }
        }),
{
    let pc = frame.program_counter;
    let cp_index: u16 = (((code[pc] as usize) * 256) + code[pc + 1] as usize) as u16;
    proof {
        assert(cp_index == spec_u16_at(code@, pc as int));
    }
    let current = frame.class;
    let ghost old_cache = *cache;
    if let Some(info) = cache.get_static_field_access(cp_index) {
        proof {
            assert(static_access_valid(old_cache.entry(cp_index), static_fields@));
        }
        let ghost sb = static_fields@;
        let result = use_static_field(frame, static_fields, class_files, info.target_class, info.field_index, put);
        proof {
            assert forall|j: u16| #[trigger] static_access_valid(cache.entry(j), static_fields@) by {
                assert(static_access_valid(old_cache.entry(j), sb));
                if let Some(CacheEntry::StaticFieldAccess(other)) = cache.entry(j) {
                    if other.target_class != info.target_class {
                        assert(static_fields@[other.target_class as int] == sb[other.target_class as int]);
                    }
                }
            }
        }
        return result;
    }
    let index = validate_cp_index(cp_index)?;
    let class_file = &class_files[current];
    if index >= class_file.constant_pool.len() {
        return Err(JvmError::InvalidMethodRefIndex(index).bx());
    }
    proof {
        assert(class_files@[current as int].wf());
    }
    let (class_name, field_name) = match class_file.constant_pool.get_field_class_name_type(index) {
        Some((c, f, _)) => (c, f),
        None => return Err(JvmError::InvalidMethodRefIndex(index).bx()),
    };
    if !is_loaded_as(class_files, loaded, class_name) {
        return Ok(ResolveAction::Load(class_name.to_owned()));
    }
    let l = match loaded {
        Some(l) => l,
        None => vstd::pervasive::unreached(),
    };
    if !initialised[l] {
        frame.program_counter = pc - 1;
        return Ok(ResolveAction::InitialiseAndRewind(l));
    }
    let (owner, field_index) = find_static_field_class_with_index(hierarchy, class_files, static_fields, l, field_name)?;
    proof {
        assert(static_field_owner(hierarchy.supers(), static_fields@, l as int, field_name@) matches Ok((c, i)) && c == owner && i == field_index);
        lemma_static_owner_known(hierarchy.supers(), static_fields@, l as int, field_name@);
        assert(static_field_valid(static_fields@[owner as int]->Some_0@[field_index as int], class_files@[owner as int]));
    }
    let file_index = match &static_fields[owner] {
        Some(fields) => fields[field_index].field_class_file_index,
        None => vstd::pervasive::unreached(),
    };
    if !may_use_field(hierarchy, class_files, current, owner, class_files[owner].fields[file_index].access_flags) {
        return Ok(ResolveAction::Throw(JvmException::IllegalAccess));
    }
    let ghost before_statics = static_fields@;
    let result = use_static_field(frame, static_fields, class_files, owner, field_index, put);
    if result.is_ok() {
        let ghost before = *cache;
        cache.register(
            cp_index,
            Rc::new(CacheEntry::StaticFieldAccess(FieldAccessInfo { target_class: owner, field_index })),
        );
        proof {
            assert forall|j: u16| #[trigger] static_access_valid(cache.entry(j), static_fields@) by {
                if j != cp_index {
                    assert(before.entry(j) == cache.entry(j));
                    assert(static_access_valid(before.entry(j), before_statics));
                }
            }
        }
    } else {
        proof {
            assert forall|j: u16| #[trigger] static_access_valid(cache.entry(j), static_fields@) by {
                assert(static_access_valid(old_cache.entry(j), before_statics));
            }
        }
    }
    result
}

/// Where a static field was found, the class's static fields are known and
/// hold it.
proof fn lemma_static_owner_known(
    supers: Seq<Option<ClassId>>,
    statics: Seq<Option<Vec<StaticFieldInfo>>>,
    c: int,
    name: Seq<char>,
)
    requires
        0 <= c < statics.len(),
    ensures
        static_field_owner(supers, statics, c, name) matches Ok((o, i)) ==> 0 <= o < statics.len() && statics[o] is Some
            && 0 <= i < statics[o]->Some_0@.len(),
    decreases c,
{
    if let Some(v) = statics[c] {
        lemma_first_static_bounded(v@, name, 0);
        if let Some(s) = supers[c] {
            if 0 <= s < c {
                lemma_static_owner_known(supers, statics, s as int, name);
            }
        }
    }
}

/// A field found by name is one of the list.
proof fn lemma_first_static_bounded(fields: Seq<StaticFieldInfo>, name: Seq<char>, i: int)
    ensures
        crate::bytecode::field_instructions::first_static_named(fields, name, i) matches Some(k) ==> 0 <= k < fields.len(),
    decreases fields.len() - i,
{
    if 0 <= i < fields.len() && fields[i].name@ != name {
        lemma_first_static_bounded(fields, name, i + 1);
    }
}


/// The object layouts known (the fields of an object of each class, where
/// they are known) name fields of loaded class files.
pub open spec fn layouts_valid(layouts: Seq<Option<Vec<FieldInfo>>>, class_files: Seq<ClassFile>) -> bool {
    &&& layouts.len() == class_files.len()
    &&& forall|c: int, i: int|
        0 <= c < layouts.len() && layouts[c] is Some && 0 <= i < layouts[c]->Some_0@.len() ==> #[trigger] layout_field_valid(
            layouts[c]->Some_0@[i],
            class_files,
        )
}

/// The field `f` of an object layout names a field of a loaded class file.
pub open spec fn layout_field_valid(f: FieldInfo, class_files: Seq<ClassFile>) -> bool {
    f.class < class_files.len() && f.field_class_file_index < class_files[f.class as int].fields@.len()
}

/// Every object field access in `cache` names a field of a known layout.
pub open spec fn object_accesses_valid(cache: ClassCache, layouts: Seq<Option<Vec<FieldInfo>>>) -> bool {
    forall|j: u16| #[trigger] object_access_valid(cache.entry(j), layouts)
}

/// No object field access, or one of a field of a known layout.
pub open spec fn object_access_valid(entry: Option<CacheEntry>, layouts: Seq<Option<Vec<FieldInfo>>>) -> bool {
    entry matches Some(CacheEntry::NonStaticFieldAccess(info)) ==> {
        &&& info.target_class < layouts.len()
        &&& layouts[info.target_class as int] is Some
        &&& info.field_index < layouts[info.target_class as int]->Some_0@.len()
    }
}

/// `loaded` is a loaded class named `name` whose object layout is known.
pub open spec fn laid_out_as(
    class_files: Seq<ClassFile>,
    layouts: Seq<Option<Vec<FieldInfo>>>,
    loaded: Option<ClassId>,
    name: Seq<char>,
) -> bool {
    loaded_as(class_files, loaded, name) && layouts[loaded->Some_0 as int] is Some
}

/// `getfield` (`put` false) and `putfield` (`put` true) in the frame
/// `frame`, whose code is `code`, with `cache` the cache of the running
/// class, `layouts` the object layouts of the loaded classes and `loaded`
/// the class that the last `Load` asked for, with its layout. A field access
/// registered in the cache is resolved at once. Otherwise the field
/// reference is read; its class is asked for until it is loaded and laid
/// out; the field is looked up among the class's object fields; a field that
/// the running class may not use throws an `IllegalAccessError`; the access
/// is registered. A resolved field is handed on, with the program counter
/// moved past the operands.
pub fn object_field_step(
    frame: &mut JvmStackFrame,
    code: &[u8],
    cache: &mut ClassCache,
    hierarchy: &ClassHierarchy,
    class_files: &Vec<ClassFile>,
    layouts: &Vec<Option<Vec<FieldInfo>>>,
    loaded: Option<ClassId>,
) -> (res: JvmResult<ResolveAction>)
    requires
        old(cache).wf(),
        object_accesses_valid(*old(cache), layouts@),
        classes_loaded(*hierarchy, class_files@),
        layouts_valid(layouts@, class_files@),
        old(frame).class < class_files@.len(),
        old(frame).program_counter + 2 <= code@.len(),
    ensures
        final(cache).wf(),
        object_accesses_valid(*final(cache), layouts@),
        same_activation(*old(frame), *final(frame)),
        final(frame).operand_stack@ == old(frame).operand_stack@,
        final(frame).local_variables@ == old(frame).local_variables@,
        ({
            let b = *old(frame);
            let a = *final(frame);
            let r = unbox(res);
            let cp_index = spec_u16_at(code@, b.program_counter as int);
            let cp = class_files@[b.class as int].constant_pool@;
            let same_cache = forall|j: u16| #[trigger] final(cache).entry(j) == old(cache).entry(j);
            let unchanged = a == b && same_cache;
            let resolved = |c: ClassId, i: int| {
                &&& r == Ok::<ResolveAction, JvmError>(
                    ResolveAction::Field {
                        field_index: i as usize,
                        descriptor: layouts@[c as int]->Some_0@[i].descriptor_type,
                    },
                )
                &&& a.program_counter == b.program_counter + 2
            };
            match old(cache).entry(cp_index) {
                Some(CacheEntry::NonStaticFieldAccess(info)) => same_cache && resolved(
                    info.target_class,
                    info.field_index as int,
                ),
                _ => if cp_index == 0 {
                    r == Err::<ResolveAction, JvmError>(JvmError::InvalidConstantPoolIndex) && unchanged
                } else if cp_index >= cp.len() || named_field(cp, cp_index as int) is None {
                    r == Err::<ResolveAction, JvmError>(JvmError::InvalidMethodRefIndex(cp_index as usize))
                        && unchanged
                } else {
                    let (class_name, field_name, _) = named_field(cp, cp_index as int).unwrap();
                    if !laid_out_as(class_files@, layouts@, loaded, class_name) {
                        unchanged && (r matches Ok(ResolveAction::Load(n)) && n@ == class_name)
                    } else {
                        let l = loaded.unwrap();
                        let fields = layouts@[l as int]->Some_0@;
                        match field_position(fields, l, field_name) {
                            None => unchanged && (r matches Err(e) && e matches JvmError::FieldNotFound {
                                class_name: n,
                                field_name: f,
                            } && n@ == class_name && f@ == field_name),
                            Some(i) => {
                                let field = fields[i];
                                let flags = class_files@[field.class as int].fields@[field.field_class_file_index as int].access_flags@;
                                if !may_use(*hierarchy, class_files@, b.class, l, flags) {
                                    unchanged && r == Ok::<ResolveAction, JvmError>(
                                        ResolveAction::Throw(JvmException::IllegalAccess),
                                    )
                                } else {
                                    &&& resolved(l, i)
                                    &&& final(cache).entry(cp_index) == Some(
                                        CacheEntry::NonStaticFieldAccess(
                                            FieldAccessInfo { target_class: l, field_index: i as usize },
                                        ),
                                    )
                                    &&& forall|j: u16|
                                        j != cp_index ==> #[trigger] final(cache).entry(j) == old(cache).entry(j)
                                }
                            },
                        }
                    }
                },
            }
        }),
{
    let pc = frame.program_counter;
    let cp_index: u16 = (((code[pc] as usize) * 256) + code[pc + 1] as usize) as u16;
    proof {
        assert(cp_index == spec_u16_at(code@, pc as int));
    }
    let current = frame.class;
    let ghost old_cache = *cache;
    if let Some(info) = cache.get_non_static_field_access(cp_index) {
        proof {
            assert(object_access_valid(old_cache.entry(cp_index), layouts@));
        }
        let descriptor = match &layouts[info.target_class] {
            Some(fields) => fields[info.field_index].descriptor_type,
            None => vstd::pervasive::unreached(),
        };
        frame.program_counter = pc + 2;
        return Ok(ResolveAction::Field { field_index: info.field_index, descriptor });
    }
    let index = validate_cp_index(cp_index)?;
    let class_file = &class_files[current];
    if index >= class_file.constant_pool.len() {
        return Err(JvmError::InvalidMethodRefIndex(index).bx());
    }
    proof {
        assert(class_files@[current as int].wf());
    }
    let (class_name, field_name) = match class_file.constant_pool.get_field_class_name_type(index) {
        Some((c, f, _)) => (c, f),
        None => return Err(JvmError::InvalidMethodRefIndex(index).bx()),
    };
    if !is_loaded_as(class_files, loaded, class_name) {
        return Ok(ResolveAction::Load(class_name.to_owned()));
    }
    let l = match loaded {
        Some(l) => l,
        None => vstd::pervasive::unreached(),
    };
    let fields = match &layouts[l] {
        Some(fields) => fields,
        None => return Ok(ResolveAction::Load(class_name.to_owned())),
    };
    let slice = fields.as_slice();
    let n_fields = fields.len();
    let field_index = find_field_index(l, class_name, slice, field_name)?;
    proof {
        lemma_field_position_bounded(fields@, l, field_name@);
        assert(layouts@[l as int] == Some(*fields));
        assert(slice@ == fields@);
        assert(n_fields == fields@.len());
        assert(layout_field_valid(fields@[field_index as int], class_files@));
    }
    let owner = fields[field_index].class;
    let file_index = fields[field_index].field_class_file_index;
    let descriptor = fields[field_index].descriptor_type;
    if !may_use_field(hierarchy, class_files, current, l, class_files[owner].fields[file_index].access_flags) {
        return Ok(ResolveAction::Throw(JvmException::IllegalAccess));
    }
    let ghost before = *cache;
    cache.register(
        cp_index,
        Rc::new(CacheEntry::NonStaticFieldAccess(FieldAccessInfo { target_class: l, field_index })),
    );
    proof {
        assert forall|j: u16| #[trigger] object_access_valid(cache.entry(j), layouts@) by {
            if j != cp_index {
                assert(before.entry(j) == cache.entry(j));
                assert(object_access_valid(before.entry(j), layouts@));
            }
        }
    }
    frame.program_counter = pc + 2;
    Ok(ResolveAction::Field { field_index, descriptor })
}


/// A field found by name is one of the list.
proof fn lemma_field_position_bounded(fields: Seq<FieldInfo>, class: ClassId, name: Seq<char>)
    ensures
        field_position(fields, class, name) matches Some(i) ==> 0 <= i < fields.len(),
{
    if exists|i: int| 0 <= i < fields.len() && fields[i].name@ == name && fields[i].class == class {
        let k = choose|i: int| 0 <= i < fields.len() && fields[i].name@ == name && fields[i].class == class;
        lemma_first_match(fields, class, name, k);
    } else if exists|i: int| 0 <= i < fields.len() && fields[i].name@ == name {
        let k = choose|i: int| 0 <= i < fields.len() && fields[i].name@ == name;
        lemma_first_named(fields, name, k);
    }
}

/// Where a field of `class` named `name` stands at `k`, a first one stands somewhere.
proof fn lemma_first_match(fields: Seq<FieldInfo>, class: ClassId, name: Seq<char>, k: int)
    requires
        0 <= k < fields.len(),
        fields[k].name@ == name && fields[k].class == class,
    ensures
        exists|i: int|
            0 <= i < fields.len() && fields[i].name@ == name && fields[i].class == class && forall|j: int|
                0 <= j < i ==> !(fields[j].name@ == name && fields[j].class == class),
    decreases k,
{
    if exists|j: int| 0 <= j < k && fields[j].name@ == name && fields[j].class == class {
        let j = choose|j: int| 0 <= j < k && fields[j].name@ == name && fields[j].class == class;
        lemma_first_match(fields, class, name, j);
    } else {
        assert(forall|j: int| 0 <= j < k ==> !(fields[j].name@ == name && fields[j].class == class));
    }
}

/// Where a field named `name` stands at `k`, a first one stands somewhere.
proof fn lemma_first_named(fields: Seq<FieldInfo>, name: Seq<char>, k: int)
    requires
        0 <= k < fields.len(),
        fields[k].name@ == name,
    ensures
        exists|i: int| 0 <= i < fields.len() && fields[i].name@ == name && forall|j: int| 0 <= j < i ==> fields[j].name@ != name,
    decreases k,
{
    if exists|j: int| 0 <= j < k && fields[j].name@ == name {
        let j = choose|j: int| 0 <= j < k && fields[j].name@ == name;
        lemma_first_named(fields, name, j);
    } else {
        assert(forall|j: int| 0 <= j < k ==> fields[j].name@ != name);
    }
}


/// The element type, class name (to load) or primitive type, and dimension
/// that the class constant naming `name` stands for: for `new` (`new_class`)
/// a class by that name; otherwise the name is read as a type name.
pub open spec fn named_type(name: Seq<char>, new_class: bool) -> (Option<Seq<char>>, Option<DescriptorType>, int) {
    if new_class {
        (Some(name), None, 0)
    } else {
        type_and_dimension(name)
    }
}

/// The class constant that `new` (`new_class`), `anewarray` or `instanceof`
/// names, resolved, in the frame `frame`, whose code is `code`, with `cache`
/// the cache of the running class and `loaded` the class that the last
/// `Load` asked for. A type registered in the cache is taken at once (for
/// `new` only a class). Otherwise the class constant is read; a class it
/// names is asked for until it is loaded; the type is registered; a class
/// not yet initialised is initialised first. A resolved type is handed on,
/// with the program counter moved past the operands.
pub fn type_step(
    frame: &mut JvmStackFrame,
    code: &[u8],
    cache: &mut ClassCache,
    class_files: &Vec<ClassFile>,
    initialised: &Vec<bool>,
    new_class: bool,
    loaded: Option<ClassId>,
) -> (res: JvmResult<ResolveAction>)
    requires
        old(cache).wf(),
        forall|c: int| 0 <= c < class_files@.len() ==> (#[trigger] class_files@[c]).wf(),
        forall|c: int|
            0 <= c < class_files@.len() ==> #[trigger] cp_class_name(
                class_files@[c].constant_pool@,
                class_files@[c].class_index as int,
            ) is Some,
        initialised@.len() == class_files@.len(),
        old(frame).class < class_files@.len(),
        1 <= old(frame).program_counter,
        old(frame).program_counter + 2 <= code@.len(),
    ensures
        final(cache).wf(),
        same_activation(*old(frame), *final(frame)),
        final(frame).operand_stack@ == old(frame).operand_stack@,
        final(frame).local_variables@ == old(frame).local_variables@,
        ({
            let b = *old(frame);
            let a = *final(frame);
            let r = unbox(res);
            let cp_index = spec_u16_at(code@, b.program_counter as int);
            let cp = class_files@[b.class as int].constant_pool@;
            let same_cache = forall|j: u16| #[trigger] final(cache).entry(j) == old(cache).entry(j);
            let unchanged = a == b && same_cache;
            let registered = |info: TypeInfo| {
                &&& final(cache).entry(cp_index) == Some(CacheEntry::Type(info))
                &&& forall|j: u16| j != cp_index ==> #[trigger] final(cache).entry(j) == old(cache).entry(j)
            };
            let resolved = |info: TypeInfo| r == Ok::<ResolveAction, JvmError>(ResolveAction::Type(info))
                && a.program_counter == b.program_counter + 2;
            match old(cache).entry(cp_index) {
                Some(CacheEntry::Type(info)) => same_cache && if new_class && !(info.object_or_array is Class) {
                    r == Err::<ResolveAction, JvmError>(JvmError::InvalidClassIndex(cp_index as usize)) && a == b
                } else {
                    resolved(info)
                },
                _ => if cp_index == 0 {
                    r == Err::<ResolveAction, JvmError>(JvmError::InvalidConstantPoolIndex) && unchanged
                } else if cp_index >= cp.len() || cp_class_name(cp, cp_index as int) is None || (!new_class
                    && !type_name_well_formed(cp_class_name(cp, cp_index as int).unwrap())) {
                    r == Err::<ResolveAction, JvmError>(JvmError::InvalidClassIndex(cp_index as usize)) && unchanged
                } else {
                    let (class_name, primitive, d) = named_type(cp_class_name(cp, cp_index as int).unwrap(), new_class);
                    match class_name {
                        Some(n) => if !loaded_as(class_files@, loaded, n) {
                            unchanged && (r matches Ok(ResolveAction::Load(m)) && m@ == n)
                        } else {
                            let l = loaded.unwrap();
                            let info = TypeInfo { object_or_array: ObjectArrayType::Class(l), dimension: d as usize };
                            &&& registered(info)
                            &&& if !initialised@[l as int] {
                                r == Ok::<ResolveAction, JvmError>(ResolveAction::InitialiseAndRewind(l))
                                    && a.program_counter == b.program_counter - 1
                            } else {
                                resolved(info)
                            }
                        },
                        None => {
                            let info = TypeInfo {
                                object_or_array: ObjectArrayType::Primitive(primitive.unwrap()),
                                dimension: d as usize,
                            };
                            registered(info) && resolved(info)
                        },
                    }
                },
            }
        }),
{
    let pc = frame.program_counter;
    let cp_index: u16 = (((code[pc] as usize) * 256) + code[pc + 1] as usize) as u16;
    proof {
        assert(cp_index == spec_u16_at(code@, pc as int));
    }
    let current = frame.class;
    if let Some(info) = cache.get_type(cp_index) {
        if new_class {
            match info.object_or_array {
                ObjectArrayType::Class(_) => {},
                _ => return Err(JvmError::InvalidClassIndex(cp_index as usize).bx()),
            }
        }
        frame.program_counter = pc + 2;
        return Ok(ResolveAction::Type(info));
    }
    let index = validate_cp_index(cp_index)?;
    let class_file = &class_files[current];
    if index >= class_file.constant_pool.len() {
        return Err(JvmError::InvalidClassIndex(index).bx());
    }
    proof {
        assert(class_files@[current as int].wf());
    }
    let name = read_class_type(class_file, index)?;
    let (element, dimension) = if new_class {
        (TypeName::Class(name.to_owned()), 0)
    } else {
        if !type_name_checked(name) {
            return Err(JvmError::InvalidClassIndex(index).bx());
        }
        determine_type_and_dimension_if_array(name)
    };
    match element {
        TypeName::Class(class_name) => {
            if !is_loaded_as(class_files, loaded, class_name.as_str()) {
                return Ok(ResolveAction::Load(class_name));
            }
            let l = match loaded {
                Some(l) => l,
                None => vstd::pervasive::unreached(),
            };
            let info = TypeInfo { object_or_array: ObjectArrayType::Class(l), dimension };
            cache.register(cp_index, Rc::new(CacheEntry::Type(info)));
            if !initialised[l] {
                frame.program_counter = pc - 1;
                return Ok(ResolveAction::InitialiseAndRewind(l));
            }
            frame.program_counter = pc + 2;
            Ok(ResolveAction::Type(info))
        },
        TypeName::Primitive(t) => {
            let info = TypeInfo { object_or_array: ObjectArrayType::Primitive(t), dimension };
            cache.register(cp_index, Rc::new(CacheEntry::Type(info)));
            frame.program_counter = pc + 2;
            Ok(ResolveAction::Type(info))
        },
    }
}


/// What the interpreter does to finish `ldc` with a class or string constant.
#[derive(Debug)]
pub enum LdcAction {
    /// The constant is on the stack.
    Done,
    /// Load the class of this name, then run the step again with it.
    Load(String),
    /// Run the initialisers of this class; the program counter was moved
    /// back onto the opcode, so the instruction runs again afterwards.
    InitialiseAndRewind(ClassId),
    /// Push a new object of `java/lang/Class` (this class) for the class
    /// named by the UTF-8 constant at `name_index`.
    MakeClassObject { class: ClassId, name_index: usize },
    /// Push the interned string, of `java/lang/String` (this class), of the
    /// UTF-8 constant at `utf8_index`, which the constant at
    /// `constant_index` refers to.
    MakeString { class: ClassId, utf8_index: usize, constant_index: u16 },
}

/// How `ldc` (`wide` false) or `ldc_w` (`wide` true) goes on after
/// `generic_ldc_instruction` asked, with `step`, for a class or string
/// object; `loaded` is the class that the last `Load` asked for. A string
/// already interned for the constant is pushed from the cache. Otherwise the
/// class `java/lang/Class` or `java/lang/String` is asked for until it is
/// loaded, and initialised first (the instruction running again) where it is
/// not yet; then the object is to be made.
pub fn ldc_object_step(
    frame: &mut JvmStackFrame,
    cache: &mut ClassCache,
    step: LdcStep,
    class_files: &Vec<ClassFile>,
    initialised: &Vec<bool>,
    wide: bool,
    loaded: Option<ClassId>,
) -> (res: LdcAction)
    requires
        old(cache).wf(),
        forall|c: int| 0 <= c < class_files@.len() ==> (#[trigger] class_files@[c]).wf(),
        forall|c: int|
            0 <= c < class_files@.len() ==> #[trigger] cp_class_name(
                class_files@[c].constant_pool@,
                class_files@[c].class_index as int,
            ) is Some,
        initialised@.len() == class_files@.len(),
        old(frame).program_counter >= if wide {
            3int
        } else {
            2int
        },
    ensures
        final(cache).wf(),
        forall|j: u16| #[trigger] final(cache).entry(j) == old(cache).entry(j),
        same_activation(*old(frame), *final(frame)),
        final(frame).local_variables@ == old(frame).local_variables@,
        ({
            let b = *old(frame);
            let a = *final(frame);
            let size: int = if wide {
                3
            } else {
                2
            };
            let needs = |name: Seq<char>, made: LdcAction| if !loaded_as(class_files@, loaded, name) {
                a == b && (res matches LdcAction::Load(n) && n@ == name)
            } else {
                let l = loaded.unwrap();
                if !initialised@[l as int] {
                    &&& res == LdcAction::InitialiseAndRewind(l)
                    &&& a.program_counter == b.program_counter - size
                    &&& a.operand_stack@ == b.operand_stack@
                } else {
                    res == made && a == b
                }
            };
            match step {
                LdcStep::Pushed => res == LdcAction::Done && a == b,
                LdcStep::LoadClass { name_index } => needs(
                    CLASS_CLASS_NAME@,
                    LdcAction::MakeClassObject { class: loaded.unwrap(), name_index },
                ),
                LdcStep::LoadString { utf8_index, constant_index } => match old(cache).entry(constant_index) {
                    Some(CacheEntry::StringPoolRef(r)) => res == LdcAction::Done && a.program_counter
                        == b.program_counter && a.operand_stack@ == b.operand_stack@.push(
                        JvmValue::Reference(Some(r)),
                    ),
                    _ => needs(
                        STRING_CLASS_NAME@,
                        LdcAction::MakeString { class: loaded.unwrap(), utf8_index, constant_index },
                    ),
                },
            }
        }),
{
    let name = match step {
        LdcStep::Pushed => return LdcAction::Done,
        LdcStep::LoadClass { .. } => CLASS_CLASS_NAME,
        LdcStep::LoadString { constant_index, .. } => {
            if let Some(reference) = cache.get_string_pool_ref(constant_index) {
                frame.operand_stack.push(JvmValue::Reference(Some(reference)));
                return LdcAction::Done;
            }
            STRING_CLASS_NAME
        },
    };
    if !is_loaded_as(class_files, loaded, name) {
        return LdcAction::Load(name.to_owned());
    }
    let l = match loaded {
        Some(l) => l,
        None => vstd::pervasive::unreached(),
    };
    if !initialised[l] {
        frame.program_counter = frame.program_counter - if wide {
            3
        } else {
            2
        };
        return LdcAction::InitialiseAndRewind(l);
    }
    match step {
        LdcStep::LoadClass { name_index } => LdcAction::MakeClassObject { class: l, name_index },
        LdcStep::LoadString { utf8_index, constant_index } => LdcAction::MakeString {
            class: l,
            utf8_index,
            constant_index,
        },
        LdcStep::Pushed => LdcAction::Done,
    }
}

} // verus!

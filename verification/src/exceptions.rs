//! Catching exceptions: which handler of a method catches a thrown object,
//! and how the frames unwind when none does.
use vstd::prelude::*;

use crate::class_file::{ClassFile, ExceptionTableEntry, cp_class_name, lemma_found_method};
use crate::class_hierarchy::{ClassHierarchy, subclass_of};
use crate::field_initialisation::initialise_object_fields;
use crate::jvm_heap::{JvmHeap, live};
use crate::jvm_model::{
    ClassId, FieldInfo, FrameReturn, HeapObject, JvmError, JvmResult, JvmStackFrame, JvmThread, JvmValue,
    default_value_of, is_fresh_frame,
};

verus! {

/// The name of the constructor that a thrown JVM exception is made with.
pub const EXCEPTION_CONSTRUCTOR_NAME: &'static str = "<init>";

/// The descriptor of that constructor.
pub const EXCEPTION_CONSTRUCTOR_DESC: &'static str = "()V";

/// Entry `e` covers the instruction at `pc` and catches an exception of
/// class `exception` (a catch class of `None` catches any exception).
pub open spec fn entry_catches(
    supers: Seq<Option<ClassId>>,
    ifaces: Seq<Seq<ClassId>>,
    e: ExceptionTableEntry,
    catch_class: Option<ClassId>,
    pc: int,
    exception: ClassId,
) -> bool {
    &&& e.start_pc <= pc < e.end_pc
    &&& match catch_class {
        None => true,
        Some(c) => subclass_of(supers, ifaces, c as int, exception as int),
    }
}

/// The first entry from `k` on that catches the exception, if any.
pub open spec fn first_handler_from(
    supers: Seq<Option<ClassId>>,
    ifaces: Seq<Seq<ClassId>>,
    table: Seq<ExceptionTableEntry>,
    catch_classes: Seq<Option<ClassId>>,
    pc: int,
    exception: ClassId,
    k: int,
) -> Option<int>
    decreases table.len() - k,
{
    if k < 0 || k >= table.len() {
        None
    } else if entry_catches(supers, ifaces, table[k], catch_classes[k], pc, exception) {
        Some(k)
    } else {
        first_handler_from(supers, ifaces, table, catch_classes, pc, exception, k + 1)
    }
}

/// The program counter of the handler that catches an exception of class
/// `exception` thrown by the instruction just before `pc`: the first entry
/// of the exception table whose range covers that instruction and whose
/// catch class (`catch_classes`, by entry; `None` for an entry that catches
/// all) the exception's class extends.
pub fn find_exception_handler(
    hierarchy: &ClassHierarchy,
    exception_table: &[ExceptionTableEntry],
    catch_classes: &[Option<ClassId>],
    pc: usize,
    exception_class: ClassId,
) -> (res: Option<usize>)
    requires
        hierarchy.wf(),
        pc >= 1,
        catch_classes@.len() == exception_table@.len(),
        exception_class < hierarchy.supers().len(),
        forall|k: int|
            0 <= k < catch_classes@.len() ==> (#[trigger] catch_classes@[k] matches Some(c) ==> c
                < hierarchy.supers().len()),
    ensures
        res == match first_handler_from(
            hierarchy.supers(),
            hierarchy.ifaces(),
            exception_table@,
            catch_classes@,
            pc - 1,
            exception_class,
            0,
        ) {
            Some(k) => Some(exception_table@[k].handler_pc as usize),
            None => None,
        },
{
    let ghost target = first_handler_from(
        hierarchy.supers(),
        hierarchy.ifaces(),
        exception_table@,
        catch_classes@,
        pc - 1,
        exception_class,
        0,
    );
    let mut i: usize = 0;
    while i < exception_table.len()
        invariant
            hierarchy.wf(),
            pc >= 1,
            i <= exception_table@.len(),
            catch_classes@.len() == exception_table@.len(),
            exception_class < hierarchy.supers().len(),
            forall|k: int|
                0 <= k < catch_classes@.len() ==> (#[trigger] catch_classes@[k] matches Some(c) ==> c
                    < hierarchy.supers().len()),
            target == first_handler_from(
                hierarchy.supers(),
                hierarchy.ifaces(),
                exception_table@,
                catch_classes@,
                pc - 1,
                exception_class,
                i as int,
            ),
            target == first_handler_from(
                hierarchy.supers(),
                hierarchy.ifaces(),
                exception_table@,
                catch_classes@,
                pc - 1,
                exception_class,
                0,
            ),
        decreases exception_table@.len() - i,
    {
        let entry = exception_table[i];
        let pre_increment_pc = pc - 1;
        if entry.start_pc as usize <= pre_increment_pc && pre_increment_pc < entry.end_pc as usize {
            let catches = match catch_classes[i] {
                None => true,
                Some(c) => {
                    proof {
                        assert(catch_classes@[i as int] matches Some(c2) ==> c2 < hierarchy.supers().len());
                    }
                    hierarchy.is_sublcass_of(c, exception_class)
                },
            };
            if catches {
                proof {
                    assert(entry_catches(
                        hierarchy.supers(),
                        hierarchy.ifaces(),
                        exception_table@[i as int],
                        catch_classes@[i as int],
                        pc - 1,
                        exception_class,
                    ));
                    assert(target == Some(i as int));
                    assert(entry == exception_table@[i as int]);
                }
                return Some(entry.handler_pc as usize);
            }
        }
        i += 1;
    }
    None
}

/// Hands the thrown object to the handler at `handler_pc`: the operand stack
/// holds just the object, and the frame no longer throws.
pub fn catch_exception(frame: &mut JvmStackFrame, handler_pc: usize, reference: usize)
    ensures
        final(frame).operand_stack@ == seq![JvmValue::Reference(Some(reference))],
        final(frame).program_counter == handler_pc,
        final(frame).should_return == FrameReturn::NotReturning,
        final(frame).return_value is None,
        final(frame).local_variables@ == old(frame).local_variables@,
        final(frame).class == old(frame).class,
        final(frame).method_index == old(frame).method_index,
        final(frame).bytecode_index == old(frame).bytecode_index,
        final(frame).is_void == old(frame).is_void,
{
    frame.operand_stack.clear();
    frame.operand_stack.push(JvmValue::Reference(Some(reference)));
    frame.program_counter = handler_pc;
    frame.unset_exception();
}

/// Unwinds one frame when the thrown object (`reference`) has no handler in
/// it: the frame is dropped and, when a caller remains, the caller throws
/// the object in its turn. Returns whether a caller remained.
pub fn propagate_exception(thread: &mut JvmThread, reference: usize) -> (res: bool)
    requires
        old(thread)@.len() > 0,
    ensures
        res == (old(thread)@.len() > 1),
        final(thread)@.len() == old(thread)@.len() - 1,
        res ==> ({
            let caller = final(thread)@.last();
            let before = old(thread)@[old(thread)@.len() - 2];
            &&& final(thread)@.drop_last() == old(thread)@.drop_last().drop_last()
            &&& caller.return_value == Some(JvmValue::Reference(Some(reference)))
            &&& caller.should_return == FrameReturn::Exception
            &&& caller.operand_stack@ == before.operand_stack@
            &&& caller.local_variables@ == before.local_variables@
            &&& caller.program_counter == before.program_counter
            &&& caller.class == before.class
            &&& caller.method_index == before.method_index
            &&& caller.bytecode_index == before.bytecode_index
            &&& caller.is_void == before.is_void
        }),
{
    let _ = thread.pop();
    if !thread.has_frames() {
        return false;
    }
    let caller = thread.top_frame_mut();
    caller.set_exception(reference);
    true
}

/// The constructor that a thrown exception of the class of `cf` is made
/// with, if the class has it, with the position of its `Code` attribute.
pub open spec fn exception_constructor(cf: ClassFile) -> Option<(int, Option<int>)> {
    cf.find_method(EXCEPTION_CONSTRUCTOR_NAME@, EXCEPTION_CONSTRUCTOR_DESC@, 0)
}

/// The constructor of the class of `cf`, where it has code, takes the
/// exception object as its one local at least.
pub open spec fn constructor_takes_object(cf: ClassFile) -> bool {
    exception_constructor(cf) matches Some((m, Some(b))) ==> cf.methods@[m].attributes@[b]->Code_0.max_locals >= 1
}

/// The frame that runs the constructor of the exception class `class` (whose
/// file is `class_file`) on the new exception object `exception`.
pub fn call_exception_constructor(class: ClassId, class_file: &ClassFile, exception: JvmValue) -> (res: JvmResult<
    JvmStackFrame,
>)
    requires
        class_file.wf(),
        cp_class_name(class_file.constant_pool@, class_file.class_index as int) is Some,
        constructor_takes_object(*class_file),
    ensures
        match exception_constructor(*class_file) {
            None => res matches Err(e) && (*e matches JvmError::MethodNotFound { class_name: c, method_name: m }
                && c@ == cp_class_name(class_file.constant_pool@, class_file.class_index as int).unwrap()
                && m@ == EXCEPTION_CONSTRUCTOR_NAME@),
            Some((_, None)) => res matches Err(e) && (*e matches JvmError::ExpectedNonNativeMethod {
                method_name: m,
                method_descriptor: d,
            } && m@ == EXCEPTION_CONSTRUCTOR_NAME@ && d@ == EXCEPTION_CONSTRUCTOR_DESC@),
            Some((m, Some(b))) => res matches Ok(f) && is_fresh_frame(
                f,
                class,
                *class_file,
                m as usize,
                b as usize,
                seq![exception],
            ),
        },
{
    let (method_index, bytecode_index) = match class_file.get_method_and_bytecode_index(
        EXCEPTION_CONSTRUCTOR_NAME,
        EXCEPTION_CONSTRUCTOR_DESC,
    ) {
        Some(index) => index,
        None => {
            let class_name = match class_file.get_class_name() {
                Some(n) => n,
                None => vstd::pervasive::unreached(),
            };
            return Err(
                JvmError::MethodNotFound {
                    class_name: class_name.to_owned(),
                    method_name: EXCEPTION_CONSTRUCTOR_NAME.to_owned(),
                }.bx(),
            );
        },
    };
    let bytecode_index = match bytecode_index {
        Some(b) => b,
        None => {
            return Err(
                JvmError::ExpectedNonNativeMethod {
                    method_name: EXCEPTION_CONSTRUCTOR_NAME.to_owned(),
                    method_descriptor: EXCEPTION_CONSTRUCTOR_DESC.to_owned(),
                }.bx(),
            );
        },
    };
    proof {
        lemma_found_method(*class_file, EXCEPTION_CONSTRUCTOR_NAME@, EXCEPTION_CONSTRUCTOR_DESC@, 0);
    }
    let mut params: Vec<JvmValue> = Vec::new();
    params.push(exception);
    proof {
        assert(params@ =~= seq![exception]);
    }
    Ok(JvmStackFrame::new(class, class_file, method_index, bytecode_index, params))
}

/// Throws a new exception of class `class` (whose file is `class_file` and
/// whose objects' fields are laid out as `fields`) from the top frame of
/// `thread`: the object is allocated with default fields, the top frame
/// throws it, and a frame that runs its constructor goes on top.
pub fn throw_jvm_exception(
    thread: &mut JvmThread,
    heap: &mut JvmHeap,
    class: ClassId,
    class_file: &ClassFile,
    fields: &[FieldInfo],
) -> (res: JvmResult<()>)
    requires
        old(thread)@.len() > 0,
        old(heap).wf(),
        old(heap).allocations() < usize::MAX,
        class_file.wf(),
        cp_class_name(class_file.constant_pool@, class_file.class_index as int) is Some,
        constructor_takes_object(*class_file),
    ensures
        final(heap).wf(),
        ({
            let n = old(thread)@.len();
            match exception_constructor(*class_file) {
                Some((m, Some(b))) => {
                    &&& res is Ok
                    &&& final(thread)@.len() == n + 1
                    &&& final(thread)@.subrange(0, n - 1) == old(thread)@.subrange(0, n - 1)
                    &&& final(thread)@[n - 1].return_value matches Some(JvmValue::Reference(Some(r))) && {
                        &&& !live(old(heap)@, r)
                        &&& final(heap)@[r as int] matches Some(HeapObject::Object { class: c, fields: f })
                        &&& c == class
                        &&& f@ == fields@.map_values(|x: FieldInfo| default_value_of(x.descriptor_type))
                        &&& forall|i: int| 0 <= i < old(heap)@.len() && i != r ==> final(heap)@[i] == old(heap)@[i]
                        &&& is_fresh_frame(
                            final(thread)@[n as int],
                            class,
                            *class_file,
                            m as usize,
                            b as usize,
                            seq![JvmValue::Reference(Some(r))],
                        )
                    }
                    &&& final(thread)@[n - 1].should_return == FrameReturn::Exception
                    &&& final(thread)@[n - 1].operand_stack@ == old(thread)@[n - 1].operand_stack@
                    &&& final(thread)@[n - 1].local_variables@ == old(thread)@[n - 1].local_variables@
                    &&& final(thread)@[n - 1].program_counter == old(thread)@[n - 1].program_counter
                    &&& final(thread)@[n - 1].class == old(thread)@[n - 1].class
                    &&& final(thread)@[n - 1].method_index == old(thread)@[n - 1].method_index
                    &&& final(thread)@[n - 1].bytecode_index == old(thread)@[n - 1].bytecode_index
                    &&& final(thread)@[n - 1].is_void == old(thread)@[n - 1].is_void
                },
                _ => res is Err && final(thread)@ == old(thread)@,
            }
        }),
{
    let object = initialise_object_fields(class, fields);
    let exception_ref = heap.allocate(object);
    let constructor_frame = match call_exception_constructor(
        class,
        class_file,
        JvmValue::Reference(Some(exception_ref)),
    ) {
        Ok(f) => f,
        Err(e) => return Err(e),
    };
    let ghost before = thread@;
    let throwing = thread.top_frame_mut();
    throwing.set_exception(exception_ref);
    thread.push(constructor_frame);
    proof {
        let n = before.len();
        assert(thread@.subrange(0, n - 1) =~= before.subrange(0, n - 1));
    }
    Ok(())
}

/// Whether the entry `e` covers the instruction that threw, the one just
/// before `pc`; only for such an entry is its catch class needed.
pub fn entry_covers(e: ExceptionTableEntry, pc: usize) -> (res: bool)
    requires
        pc >= 1,
    ensures
        res == (e.start_pc <= pc - 1 < e.end_pc),
{
    let pre_increment_pc = pc - 1;
    e.start_pc as usize <= pre_increment_pc && pre_increment_pc < e.end_pc as usize
}

/// What handling a thrown object did with the top frame of a thread.
#[derive(Debug, Clone, Copy, PartialEq, Eq, Structural)]
pub enum ExceptionStep {
    /// A handler of the frame caught it: the frame goes on at the handler.
    Caught,
    /// The frame had no handler and was dropped: its caller throws the
    /// object now.
    Unwound,
    /// The frame had no handler and no caller: the thread ended with the
    /// object unhandled.
    Unhandled,
}

/// Handles the object at `reference`, of class `exception_class`, that the
/// top frame of `thread` throws, given the frame's exception table and the
/// class that each entry catches (`None` for an entry that catches all): the
/// first entry that covers the throwing instruction and catches the class
/// catches it; else the frame is dropped.
pub fn handle_exception(
    thread: &mut JvmThread,
    hierarchy: &ClassHierarchy,
    exception_table: &[ExceptionTableEntry],
    catch_classes: &[Option<ClassId>],
    reference: usize,
    exception_class: ClassId,
) -> (res: ExceptionStep)
    requires
        old(thread)@.len() > 0,
        old(thread)@.last().program_counter >= 1,
        hierarchy.wf(),
        catch_classes@.len() == exception_table@.len(),
        exception_class < hierarchy.supers().len(),
        forall|k: int|
            0 <= k < catch_classes@.len() ==> (#[trigger] catch_classes@[k] matches Some(c) ==> c
                < hierarchy.supers().len()),
    ensures
        ({
            let n = old(thread)@.len();
            let top = old(thread)@.last();
            match first_handler_from(
                hierarchy.supers(),
                hierarchy.ifaces(),
                exception_table@,
                catch_classes@,
                top.program_counter - 1,
                exception_class,
                0,
            ) {
                Some(k) => {
                    let caught = final(thread)@.last();
                    &&& res == ExceptionStep::Caught
                    &&& final(thread)@.len() == n
                    &&& final(thread)@.drop_last() == old(thread)@.drop_last()
                    &&& caught.operand_stack@ == seq![JvmValue::Reference(Some(reference))]
                    &&& caught.program_counter == exception_table@[k].handler_pc
                    &&& caught.should_return == FrameReturn::NotReturning
                    &&& caught.return_value is None
                    &&& caught.local_variables@ == top.local_variables@
                    &&& caught.class == top.class
                    &&& caught.method_index == top.method_index
                    &&& caught.bytecode_index == top.bytecode_index
                    &&& caught.is_void == top.is_void
                },
                None => if n == 1 {
                    res == ExceptionStep::Unhandled && final(thread)@.len() == 0
                } else {
                    let caller = final(thread)@.last();
                    let before = old(thread)@[n - 2];
                    &&& res == ExceptionStep::Unwound
                    &&& final(thread)@.len() == n - 1
                    &&& final(thread)@.drop_last() == old(thread)@.drop_last().drop_last()
                    &&& caller.return_value == Some(JvmValue::Reference(Some(reference)))
                    &&& caller.should_return == FrameReturn::Exception
                    &&& caller.operand_stack@ == before.operand_stack@
                    &&& caller.local_variables@ == before.local_variables@
                    &&& caller.program_counter == before.program_counter
                    &&& caller.class == before.class
                    &&& caller.method_index == before.method_index
                    &&& caller.bytecode_index == before.bytecode_index
                    &&& caller.is_void == before.is_void
                },
            }
        }),
{
    let pc = thread.top_frame().program_counter;
    match find_exception_handler(hierarchy, exception_table, catch_classes, pc, exception_class) {
        Some(handler_pc) => {
            let ghost before = thread@;
            let frame = thread.top_frame_mut();
            catch_exception(frame, handler_pc, reference);
            proof {
                assert(thread@.drop_last() =~= before.drop_last());
            }
            ExceptionStep::Caught
        },
        None => {
            if propagate_exception(thread, reference) {
                ExceptionStep::Unwound
            } else {
                ExceptionStep::Unhandled
            }
        },
    }
}


/// The first entry from `k` on whose catch class must be loaded before the
/// handler search can decide: an entry that covers the instruction at `pc`,
/// names a catch class (`catch_type` not 0) and has none loaded yet
/// (`catch_classes`), met before any entry that catches the exception.
pub open spec fn catch_class_needed(
    supers: Seq<Option<ClassId>>,
    ifaces: Seq<Seq<ClassId>>,
    table: Seq<ExceptionTableEntry>,
    catch_classes: Seq<Option<ClassId>>,
    pc: int,
    exception: ClassId,
    k: int,
) -> Option<int>
    decreases table.len() - k,
{
    if k < 0 || k >= table.len() {
        None
    } else if table[k].start_pc <= pc < table[k].end_pc && table[k].catch_type != 0 && catch_classes[k] is None {
        Some(k)
    } else if entry_catches(supers, ifaces, table[k], catch_classes[k], pc, exception) {
        None
    } else {
        catch_class_needed(supers, ifaces, table, catch_classes, pc, exception, k + 1)
    }
}

/// The entry of the exception table whose catch class is to be loaded next
/// before the handler of an exception of class `exception_class`, thrown by
/// the instruction just before `pc`, can be found (`catch_classes` holds the
/// catch classes loaded so far, by entry); `None` once the search can
/// decide. Catch classes are loaded in table order, up to the first entry
/// that catches the exception.
pub fn next_catch_class(
    hierarchy: &ClassHierarchy,
    exception_table: &[ExceptionTableEntry],
    catch_classes: &[Option<ClassId>],
    pc: usize,
    exception_class: ClassId,
) -> (res: Option<usize>)
    requires
        hierarchy.wf(),
        pc >= 1,
        catch_classes@.len() == exception_table@.len(),
        exception_class < hierarchy.supers().len(),
        forall|k: int|
            0 <= k < catch_classes@.len() ==> (#[trigger] catch_classes@[k] matches Some(c) ==> c
                < hierarchy.supers().len()),
    ensures
        res == match catch_class_needed(
            hierarchy.supers(),
            hierarchy.ifaces(),
            exception_table@,
            catch_classes@,
            pc - 1,
            exception_class,
            0,
        ) {
            Some(k) => Some(k as usize),
            None => None::<usize>,
        },
{
    let mut i: usize = 0;
    while i < exception_table.len()
        invariant
            hierarchy.wf(),
            pc >= 1,
            i <= exception_table@.len(),
            catch_classes@.len() == exception_table@.len(),
            exception_class < hierarchy.supers().len(),
            forall|k: int|
                0 <= k < catch_classes@.len() ==> (#[trigger] catch_classes@[k] matches Some(c) ==> c
                    < hierarchy.supers().len()),
            catch_class_needed(
                hierarchy.supers(),
                hierarchy.ifaces(),
                exception_table@,
                catch_classes@,
                pc - 1,
                exception_class,
                0,
            ) == catch_class_needed(
                hierarchy.supers(),
                hierarchy.ifaces(),
                exception_table@,
                catch_classes@,
                pc - 1,
                exception_class,
                i as int,
            ),
        decreases exception_table@.len() - i,
    {
        let entry = exception_table[i];
        let pre_increment_pc = pc - 1;
        if entry.start_pc as usize <= pre_increment_pc && pre_increment_pc < entry.end_pc as usize {
            match catch_classes[i] {
                None => {
                    if entry.catch_type != 0 {
                        return Some(i);
                    }
                    return None;
                },
                Some(c) => {
                    proof {
                        assert(catch_classes@[i as int] matches Some(c2) ==> c2 < hierarchy.supers().len());
                    }
                    if hierarchy.is_sublcass_of(c, exception_class) {
                        return None;
                    }
                },
            }
        }
        i += 1;
    }
    None
}

} // verus!

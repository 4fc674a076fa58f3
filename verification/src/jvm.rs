//! The decisions of the interpreter loop that concern the frames of a thread.
use vstd::prelude::*;

use crate::class_file::{ClassFile, MethodAccessFlags, flag_set, lemma_found_method};
use crate::class_hierarchy::ClassHierarchy;
use crate::field_initialisation::{determine_static_fields, field_described, is_static, static_info_view, static_infos};
use crate::jvm_model::{
    ClassId, FrameReturn, JvmError, JvmResult, JvmStackFrame, JvmThread, JvmValue, StaticFieldInfo, is_fresh_frame,
};

verus! {

/// What the interpreter does after a frame returned.
#[derive(Debug, Clone, Copy, PartialEq, Eq, Structural)]
pub enum ReturnStep {
    /// Go on with the caller.
    Continue,
    /// The first frame returned: the thread is done, with this value when the
    /// method was not void.
    Finished(Option<JvmValue>),
}

/// `after` is the stack of frames `before` once its top frame returned, and
/// `res` what the interpreter does next: a value that the frame returns goes
/// onto the caller's operand stack, or ends the thread when there is no
/// caller.
pub open spec fn frame_returned(
    before: Seq<JvmStackFrame>,
    after: Seq<JvmStackFrame>,
    res: Result<ReturnStep, JvmError>,
) -> bool {
    let top = before.last();
    let rest = before.drop_last();
    if top.is_void {
        &&& after == rest
        &&& res == Ok::<ReturnStep, JvmError>(
            if rest.len() > 0 {
                ReturnStep::Continue
            } else {
                ReturnStep::Finished(None)
            },
        )
    } else {
        match top.return_value {
            None => after == rest && res == Err::<ReturnStep, JvmError>(
                JvmError::MissingReturnValue,
            ),
            Some(v) => if rest.len() > 0 {
                &&& res == Ok::<ReturnStep, JvmError>(ReturnStep::Continue)
                &&& after.len() == rest.len()
                &&& after.drop_last() == rest.drop_last()
                &&& after.last() == (JvmStackFrame {
                    operand_stack: after.last().operand_stack,
                    ..rest.last()
                })
                &&& after.last().operand_stack@ == rest.last().operand_stack@.push(v)
            } else {
                after == rest && res == Ok::<ReturnStep, JvmError>(
                    ReturnStep::Finished(Some(v)),
                )
            },
        }
    }
}

/// Drops the top frame, which returns: a value it returns goes onto the
/// caller's operand stack, or ends the thread when there is no caller.
pub fn return_from_frame(thread: &mut JvmThread) -> (res: JvmResult<ReturnStep>)
    requires
        old(thread)@.len() > 0,
    ensures
        frame_returned(old(thread)@, final(thread)@, unbox_step(res)),
{
    let old_frame = match thread.pop() {
        Some(f) => f,
        None => vstd::pervasive::unreached(),
    };
    if old_frame.is_void {
        if thread.has_frames() {
            return Ok(ReturnStep::Continue);
        } else {
            return Ok(ReturnStep::Finished(None));
        }
    }
    let return_value = match old_frame.return_value {
        Some(value) => value,
        None => return Err(JvmError::MissingReturnValue.bx()),
    };
    if thread.has_frames() {
        let ghost rest = thread@;
        let caller = thread.top_frame_mut();
        caller.operand_stack.push(return_value);
        proof {
            assert(thread@.drop_last() =~= rest.drop_last());
        }
        Ok(ReturnStep::Continue)
    } else {
        Ok(ReturnStep::Finished(Some(return_value)))
    }
}

/// The error of a result, taken out of its box.
pub open spec fn unbox_step(r: JvmResult<ReturnStep>) -> Result<ReturnStep, JvmError> {
    match r {
        Ok(v) => Ok(v),
        Err(e) => Err(*e),
    }
}

/// Reads the opcode at the program counter and moves past it.
pub fn fetch_instruction(frame: &mut JvmStackFrame, code: &[u8]) -> (res: u8)
    requires
        old(frame).program_counter < code@.len(),
    ensures
        res == code@[old(frame).program_counter as int],
        final(frame).program_counter == old(frame).program_counter + 1,
        final(frame).operand_stack@ == old(frame).operand_stack@,
        final(frame).local_variables@ == old(frame).local_variables@,
        crate::bytecode::same_activation(*old(frame), *final(frame)),
{
    crate::bytecode::read_u8_from_bytecode(frame, code)
}

/// The name of the method that initialises a class.
pub const INITIALISE_CLASS_METHOD: &'static str = "<clinit>";

/// The descriptor of that method.
pub const INITIALISE_CLASS_DESCRIPTOR: &'static str = "()V";

/// The first frame of a thread that runs the static method `method_name`
/// with `method_descriptor` of the class `class` (named `class_name`, whose
/// file is `class_file`) on `params`.
pub fn entry_frame(
    class: ClassId,
    class_file: &ClassFile,
    class_name: &str,
    method_name: &str,
    method_descriptor: &str,
    params: Vec<JvmValue>,
) -> (res: JvmResult<JvmStackFrame>)
    requires
        class_file.wf(),
        class_file.find_method(method_name@, method_descriptor@, 0) matches Some((m, Some(b))) ==> params@.len()
            <= class_file.methods@[m].attributes@[b]->Code_0.max_locals,
    ensures
        match class_file.find_method(method_name@, method_descriptor@, 0) {
            None => res matches Err(e) && (*e matches JvmError::MethodNotFound { class_name: c, method_name: n }
                && c@ == class_name@ && n@ == method_name@),
            Some((m, b)) => if !flag_set(class_file.methods@[m].access_flags@, MethodAccessFlags::STATIC_FLAG) {
                res matches Err(e) && (*e matches JvmError::ExpectedStaticMethod {
                    method_name: n,
                    method_descriptor: d,
                } && n@ == method_name@ && d@ == method_descriptor@)
            } else {
                match b {
                    None => res matches Err(e) && (*e matches JvmError::ExpectedNonNativeMethod {
                        method_name: n,
                        method_descriptor: d,
                    } && n@ == method_name@ && d@ == method_descriptor@),
                    Some(b) => res matches Ok(f) && is_fresh_frame(f, class, *class_file, m as usize, b as usize, params@),
                }
            },
        },
{
    let (method_index, bytecode_index) = match class_file.get_method_and_bytecode_index(method_name, method_descriptor) {
        Some(index) => index,
        None => {
            return Err(
                JvmError::MethodNotFound { class_name: class_name.to_owned(), method_name: method_name.to_owned() }.bx(),
            );
        },
    };
    proof {
        lemma_found_method(*class_file, method_name@, method_descriptor@, 0);
    }
    if !class_file.methods[method_index].access_flags.check_flag(MethodAccessFlags::STATIC_FLAG) {
        return Err(
            JvmError::ExpectedStaticMethod {
                method_name: method_name.to_owned(),
                method_descriptor: method_descriptor.to_owned(),
            }.bx(),
        );
    }
    match bytecode_index {
        Some(bytecode_index) => Ok(JvmStackFrame::new(class, class_file, method_index, bytecode_index, params)),
        None => Err(
            JvmError::ExpectedNonNativeMethod {
                method_name: method_name.to_owned(),
                method_descriptor: method_descriptor.to_owned(),
            }.bx(),
        ),
    }
}

/// The frame that runs the class initialiser of the class `class` (whose
/// file is `class_file`), when the class has one; a class initialiser
/// without code is an error.
pub fn class_initialiser_frame(class: ClassId, class_file: &ClassFile) -> (res: JvmResult<Option<JvmStackFrame>>)
    requires
        class_file.wf(),
    ensures
        match class_file.find_method(INITIALISE_CLASS_METHOD@, INITIALISE_CLASS_DESCRIPTOR@, 0) {
            None => res matches Ok(None),
            Some((_, None)) => res matches Err(e) && (*e matches JvmError::ExpectedNonNativeMethod {
                method_name: n,
                method_descriptor: d,
            } && n@ == INITIALISE_CLASS_METHOD@ && d@ == INITIALISE_CLASS_DESCRIPTOR@),
            Some((m, Some(b))) => res matches Ok(Some(f)) && is_fresh_frame(
                f,
                class,
                *class_file,
                m as usize,
                b as usize,
                Seq::<JvmValue>::empty(),
            ),
        },
{
    let (method_index, bytecode_index) = match class_file.get_method_and_bytecode_index(
        INITIALISE_CLASS_METHOD,
        INITIALISE_CLASS_DESCRIPTOR,
    ) {
        Some(index) => index,
        None => return Ok(None),
    };
    proof {
        lemma_found_method(*class_file, INITIALISE_CLASS_METHOD@, INITIALISE_CLASS_DESCRIPTOR@, 0);
    }
    match bytecode_index {
        Some(bytecode_index) => {
            let params: Vec<JvmValue> = Vec::new();
            Ok(Some(JvmStackFrame::new(class, class_file, method_index, bytecode_index, params)))
        },
        None => Err(
            JvmError::ExpectedNonNativeMethod {
                method_name: INITIALISE_CLASS_METHOD.to_owned(),
                method_descriptor: INITIALISE_CLASS_DESCRIPTOR.to_owned(),
            }.bx(),
        ),
    }
}

/// What the interpreter does with the top frame of a thread.
#[derive(Debug, Clone, Copy, PartialEq, Eq, Structural)]
pub enum ThreadStep {
    /// The frame runs on: this opcode was fetched.
    Execute(u8),
    /// The frame returned.
    Returned(ReturnStep),
    /// The frame throws the object at this reference, which a handler of
    /// the frame may catch.
    Throwing(usize),
}

/// The error of a result, taken out of its box.
pub open spec fn unbox_thread_step(r: JvmResult<ThreadStep>) -> Result<ThreadStep, JvmError> {
    match r {
        Ok(v) => Ok(v),
        Err(e) => Err(*e),
    }
}

/// One turn of the interpreter loop on the top frame of `thread`, whose
/// code is `code`: a returning frame returns, a throwing frame hands out
/// the thrown object, and any other frame has its next opcode fetched.
pub fn thread_step(thread: &mut JvmThread, code: &[u8]) -> (res: JvmResult<ThreadStep>)
    requires
        old(thread)@.len() > 0,
        old(thread)@.last().should_return == FrameReturn::NotReturning ==> old(thread)@.last().program_counter
            < code@.len(),
        old(thread)@.last().should_return == FrameReturn::Exception ==> old(thread)@.last().return_value matches Some(
            JvmValue::Reference(Some(_)),
        ),
    ensures
        ({
            let top = old(thread)@.last();
            match top.should_return {
                FrameReturn::NotReturning => {
                    &&& res == Ok::<ThreadStep, Box<JvmError>>(ThreadStep::Execute(code@[top.program_counter as int]))
                    &&& final(thread)@.len() == old(thread)@.len()
                    &&& final(thread)@.drop_last() == old(thread)@.drop_last()
                    &&& final(thread)@.last().program_counter == top.program_counter + 1
                    &&& final(thread)@.last().operand_stack@ == top.operand_stack@
                    &&& final(thread)@.last().local_variables@ == top.local_variables@
                    &&& crate::bytecode::same_activation(top, final(thread)@.last())
                },
                FrameReturn::Returning => match unbox_thread_step(res) {
                    Ok(ThreadStep::Returned(step)) => frame_returned(
                        old(thread)@,
                        final(thread)@,
                        Ok::<ReturnStep, JvmError>(step),
                    ),
                    Err(e) => frame_returned(old(thread)@, final(thread)@, Err::<ReturnStep, JvmError>(e)),
                    _ => false,
                },
                FrameReturn::Exception => {
                    &&& top.return_value matches Some(JvmValue::Reference(Some(r))) && res == Ok::<
                        ThreadStep,
                        Box<JvmError>,
                    >(ThreadStep::Throwing(r))
                    &&& final(thread)@ == old(thread)@
                },
            }
        }),
{
    let should_return = thread.top_frame().should_return;
    match should_return {
        FrameReturn::NotReturning => {
            let ghost before = thread@;
            let frame = thread.top_frame_mut();
            let instruction = fetch_instruction(frame, code);
            proof {
                assert(thread@.drop_last() =~= before.drop_last());
            }
            Ok(ThreadStep::Execute(instruction))
        },
        FrameReturn::Returning => match return_from_frame(thread) {
            Ok(step) => Ok(ThreadStep::Returned(step)),
            Err(e) => Err(e),
        },
        FrameReturn::Exception => match thread.top_frame().return_value {
            Some(JvmValue::Reference(Some(r))) => Ok(ThreadStep::Throwing(r)),
            _ => vstd::pervasive::unreached(),
        },
    }
}

/// The class initialiser of the class of `cf`, if it has one, with the
/// position of its code.
pub open spec fn class_initialiser(cf: ClassFile) -> Option<(int, Option<int>)> {
    cf.find_method(INITIALISE_CLASS_METHOD@, INITIALISE_CLASS_DESCRIPTOR@, 0)
}

/// The classes from `c` up the super chain that are not initialised, up to
/// the first one that is. A super class was loaded before its subclasses, so
/// the chain runs down the class ids.
pub open spec fn uninitialised_chain(supers: Seq<Option<ClassId>>, initialised: Seq<bool>, c: int) -> Seq<int>
    decreases c,
{
    if c < 0 || c >= initialised.len() || initialised[c] {
        Seq::empty()
    } else {
        match supers[c] {
            Some(s) => if s < c {
                seq![c] + uninitialised_chain(supers, initialised, s as int)
            } else {
                seq![c]
            },
            None => seq![c],
        }
    }
}

/// The position, from `k` on, of the first class of `chain` whose class
/// initialiser has no code; the length of `chain` when there is none.
pub open spec fn first_native_initialiser(classes: Seq<ClassFile>, chain: Seq<int>, k: int) -> int
    decreases chain.len() - k,
{
    if k < 0 || k >= chain.len() {
        chain.len() as int
    } else if class_initialiser(classes[chain[k]]) matches Some((_, None)) {
        k
    } else {
        first_native_initialiser(classes, chain, k + 1)
    }
}

/// The first class from `k` on with an initialiser without code lies from
/// `k` on.
proof fn lemma_first_native_bounds(classes: Seq<ClassFile>, chain: Seq<int>, k: int)
    requires
        0 <= k <= chain.len(),
    ensures
        k <= first_native_initialiser(classes, chain, k) <= chain.len(),
    decreases chain.len() - k,
{
    if k < chain.len() {
        lemma_first_native_bounds(classes, chain, k + 1);
    }
}

/// `frames` are the frames that run the class initialisers of the classes
/// `chain` that have one, in the order of the chain.
pub open spec fn initialiser_frames(frames: Seq<JvmStackFrame>, classes: Seq<ClassFile>, chain: Seq<int>) -> bool
    decreases chain.len(),
{
    if chain.len() == 0 {
        frames.len() == 0
    } else {
        let c = chain.last();
        match class_initialiser(classes[c]) {
            Some((m, Some(b))) => {
                &&& frames.len() > 0
                &&& is_fresh_frame(frames.last(), c as usize, classes[c], m as usize, b as usize, Seq::empty())
                &&& initialiser_frames(frames.drop_last(), classes, chain.drop_last())
            },
            _ => initialiser_frames(frames, classes, chain.drop_last()),
        }
    }
}

/// The static fields `after` are those `before` with the fields of each
/// class of `done` worked out where they were not yet.
pub open spec fn statics_worked_out(
    before: Seq<Option<Vec<StaticFieldInfo>>>,
    after: Seq<Option<Vec<StaticFieldInfo>>>,
    classes: Seq<ClassFile>,
    done: Seq<int>,
) -> bool {
    &&& after.len() == before.len()
    &&& forall|i: int|
        0 <= i < before.len() ==> if done.contains(i) && before[i] is None {
            #[trigger] after[i] matches Some(v) && v@.map_values(|f: StaticFieldInfo| static_info_view(f))
                == static_infos(classes[i].fields@, classes[i].constant_pool@, classes[i].fields@.len() as int)
        } else {
            after[i] == before[i]
        }
}

/// Every class file of `classes` is well formed and names the name and type
/// of each of its static fields.
pub open spec fn statics_described(classes: Seq<ClassFile>) -> bool {
    forall|c: int|
        0 <= c < classes.len() ==> (#[trigger] classes[c]).wf() && forall|i: int|
            0 <= i < classes[c].fields@.len() && is_static(#[trigger] classes[c].fields@[i]) ==> field_described(
                classes[c].constant_pool@,
                classes[c].fields@[i],
            )
}

/// Initialises the class `class` and, before it, its super classes, where
/// they are not initialised yet: each is marked initialised, the frame of
/// its class initialiser, when it has one, goes onto `thread` (so that the
/// super class's runs first), and its static fields are worked out. A class
/// initialiser without code is an error; the class it belongs to stays
/// marked initialised, and its super classes are left as they were.
#[verifier::spinoff_prover]
pub fn initialise_class(
    thread: &mut JvmThread,
    hierarchy: &ClassHierarchy,
    class_files: &Vec<ClassFile>,
    initialised: &mut Vec<bool>,
    static_fields: &mut Vec<Option<Vec<StaticFieldInfo>>>,
    class: ClassId,
) -> (res: JvmResult<()>)
    requires
        hierarchy.wf(),
        class < hierarchy.supers().len(),
        class_files@.len() == hierarchy.supers().len(),
        old(initialised)@.len() == hierarchy.supers().len(),
        old(static_fields)@.len() == hierarchy.supers().len(),
        statics_described(class_files@),
    ensures
        ({
            let chain = uninitialised_chain(hierarchy.supers(), old(initialised)@, class as int);
            let e = first_native_initialiser(class_files@, chain, 0);
            let marked = if e < chain.len() {
                chain.subrange(0, e + 1)
            } else {
                chain
            };
            let n = old(thread)@.len();
            &&& (res is Err) == (e < chain.len())
            &&& res matches Err(err) ==> (*err matches JvmError::ExpectedNonNativeMethod {
                method_name: m,
                method_descriptor: d,
            } && m@ == INITIALISE_CLASS_METHOD@ && d@ == INITIALISE_CLASS_DESCRIPTOR@)
            &&& final(initialised)@.len() == old(initialised)@.len()
            &&& forall|i: int|
                0 <= i < old(initialised)@.len() ==> #[trigger] final(initialised)@[i] == (old(initialised)@[i]
                    || marked.contains(i))
            &&& statics_worked_out(old(static_fields)@, final(static_fields)@, class_files@, chain.subrange(0, e))
            &&& final(thread)@.len() >= n
            &&& final(thread)@.subrange(0, n as int) == old(thread)@
            &&& initialiser_frames(
                final(thread)@.subrange(n as int, final(thread)@.len() as int),
                class_files@,
                chain.subrange(0, e),
            )
        }),
{
    let ghost supers = hierarchy.supers();
    let ghost classes = class_files@;
    let ghost old_init = initialised@;
    let ghost old_statics = static_fields@;
    let ghost old_thread = thread@;
    let ghost n = thread@.len();
    let ghost chain = uninitialised_chain(supers, old_init, class as int);
    let ghost e = first_native_initialiser(classes, chain, 0);
    let ghost mut k: int = 0;
    let mut c = class;
    proof {
        assert(chain.subrange(0, chain.len() as int) =~= chain);
        assert(thread@.subrange(0, n as int) =~= old_thread);
        assert(thread@.subrange(n as int, thread@.len() as int) =~= Seq::<JvmStackFrame>::empty());
        assert(chain.subrange(0, 0) =~= Seq::<int>::empty());
        lemma_first_native_bounds(classes, chain, 0);
    }
    loop
        invariant
            hierarchy.wf(),
            supers == hierarchy.supers(),
            classes == class_files@,
            statics_described(classes),
            c < supers.len(),
            classes.len() == supers.len(),
            initialised@.len() == supers.len(),
            static_fields@.len() == supers.len(),
            old_init.len() == supers.len(),
            old_statics.len() == supers.len(),
            old_init == old(initialised)@,
            old_statics == old(static_fields)@,
            old_thread == old(thread)@,
            n == old(thread)@.len(),
            chain == uninitialised_chain(supers, old_init, class as int),
            e == first_native_initialiser(classes, chain, 0),
            0 <= k <= chain.len(),
            k <= e <= chain.len(),
            e == first_native_initialiser(classes, chain, k),
            chain.subrange(k, chain.len() as int) == uninitialised_chain(supers, old_init, c as int),
            forall|j: int| 0 <= j < k ==> chain[j] > c,
            forall|i: int|
                0 <= i < old_init.len() ==> #[trigger] initialised@[i] == (old_init[i] || chain.subrange(
                    0,
                    k,
                ).contains(i)),
            statics_worked_out(old_statics, static_fields@, classes, chain.subrange(0, k)),
            thread@.len() >= n,
            thread@.subrange(0, n as int) == old_thread,
            initialiser_frames(thread@.subrange(n as int, thread@.len() as int), classes, chain.subrange(0, k)),
        decreases c,
    {
        proof {
            hierarchy.lemma_loaded_before(c);
            assert(!chain.subrange(0, k).contains(c as int)) by {
                if chain.subrange(0, k).contains(c as int) {
                    let j = choose|j: int| 0 <= j < k && chain.subrange(0, k)[j] == c as int;
                    assert(chain[j] > c);
                }
            }
        }
        if initialised[c] {
            proof {
                assert(initialised@[c as int] == (old_init[c as int] || chain.subrange(0, k).contains(c as int)));
                assert(old_init[c as int]);
                assert(uninitialised_chain(supers, old_init, c as int) =~= Seq::<int>::empty());
                assert(chain.len() == k);
                assert(chain.subrange(0, k) =~= chain);
            }
            return Ok(());
        }
        proof {
            let tail = uninitialised_chain(supers, old_init, c as int);
            assert(initialised@[c as int] == (old_init[c as int] || chain.subrange(0, k).contains(c as int)));
            assert(!old_init[c as int]);
            assert(tail.len() >= 1 && tail[0] == c as int);
            assert(chain.subrange(k, chain.len() as int)[0] == chain[k]);
            assert(chain[k] == c as int);
        }
        let ghost before_init = initialised@;
        initialised.set(c, true);
        proof {
            let done = chain.subrange(0, k + 1);
            assert forall|i: int| 0 <= i < old_init.len() implies #[trigger] initialised@[i] == (old_init[i]
                || done.contains(i)) by {
                if i == c as int {
                    assert(done[k] == c as int);
                } else {
                    assert(initialised@[i] == before_init[i]);
                    if chain.subrange(0, k).contains(i) {
                        let j = choose|j: int| 0 <= j < k && chain.subrange(0, k)[j] == i;
                        assert(done[j] == i);
                    }
                    if done.contains(i) {
                        let j = choose|j: int| 0 <= j < k + 1 && done[j] == i;
                        assert(j != k);
                        assert(chain.subrange(0, k)[j] == i);
                    }
                }
            }
            assert(classes[c as int].wf());
        }
        let initialiser = match class_initialiser_frame(c, &class_files[c]) {
            Ok(f) => f,
            Err(err) => {
                proof {
                    assert(e == k);
                }
                return Err(err);
            },
        };
        let ghost frames_before = thread@;
        match initialiser {
            Some(frame) => {
                thread.push(frame);
            },
            None => {},
        }
        proof {
            let done = chain.subrange(0, k + 1);
            assert(done.drop_last() =~= chain.subrange(0, k));
            assert(done.last() == c as int);
            assert(thread@.subrange(0, n as int) =~= old_thread);
            let fs = thread@.subrange(n as int, thread@.len() as int);
            if thread@.len() > frames_before.len() {
                assert(fs.drop_last() =~= frames_before.subrange(n as int, frames_before.len() as int));
            } else {
                assert(fs =~= frames_before.subrange(n as int, frames_before.len() as int));
            }
        }
        let ghost statics_before = static_fields@;
        if static_fields[c].is_none() {
            let fields = determine_static_fields(&class_files[c]);
            static_fields.set(c, Some(fields));
        }
        proof {
            let done = chain.subrange(0, k + 1);
            assert forall|i: int| 0 <= i < old_statics.len() implies if done.contains(i) && old_statics[i] is None {
                #[trigger] static_fields@[i] matches Some(v) && v@.map_values(|f: StaticFieldInfo| static_info_view(f))
                    == static_infos(classes[i].fields@, classes[i].constant_pool@, classes[i].fields@.len() as int)
            } else {
                static_fields@[i] == old_statics[i]
            } by {
                if i != c as int {
                    assert(static_fields@[i] == statics_before[i]);
                    if chain.subrange(0, k).contains(i) {
                        let j = choose|j: int| 0 <= j < k && chain.subrange(0, k)[j] == i;
                        assert(done[j] == i);
                    }
                    if done.contains(i) {
                        let j = choose|j: int| 0 <= j < k + 1 && done[j] == i;
                        assert(j != k);
                        assert(chain.subrange(0, k)[j] == i);
                    }
                } else {
                    assert(done[k] == c as int);
                    assert(statics_before[i] == old_statics[i]);
                }
            }
            lemma_first_native_bounds(classes, chain, k + 1);
            k = k + 1;
        }
        match hierarchy.super_class(c) {
            Some(s) => {
                proof {
                    assert(uninitialised_chain(supers, old_init, c as int) == seq![c as int] + uninitialised_chain(
                        supers,
                        old_init,
                        s as int,
                    ));
                    assert(chain.subrange(k, chain.len() as int) =~= uninitialised_chain(supers, old_init, c as int).drop_first());
                }
                c = s;
            },
            None => {
                proof {
                    assert(uninitialised_chain(supers, old_init, c as int) =~= seq![c as int]);
                    assert(chain.len() == k);
                    assert(chain.subrange(0, k) =~= chain);
                }
                return Ok(());
            },
        }
    }
}

} // verus!

//! Method descriptors: the parameter types they list, and taking the
//! arguments of a call off the operand stack.
use vstd::prelude::*;

use crate::bytecode::{
    only_stack_changed, pop_int, pop_long, pop_reference, popped, spec_pop_int, spec_pop_long,
    spec_pop_reference, stack_usable, unbox,
};
use crate::jvm_model::{DescriptorType, JvmError, JvmResult, JvmStackFrame, JvmValue, descriptor_type_of};
use crate::text::str_to_chars;

verus! {

/// The position of the first `c` in `s`, if any.
pub open spec fn first_index_of(s: Seq<char>, c: char) -> Option<int> {
    if exists|i: int| 0 <= i < s.len() && s[i] == c {
        Some(choose|i: int| 0 <= i < s.len() && s[i] == c && forall|j: int| 0 <= j < i ==> s[j] != c)
    } else {
        None
    }
}

/// Where the reading of a parameter list stands: between parameters
/// (`Between`), after the `[`s of an array type, whose element type comes
/// next (`ArrayElement`), or inside a class name, from its `L` up to the
/// next `;` (`ClassName`).
#[derive(Debug, Clone, Copy, PartialEq, Eq, Structural)]
pub enum ScanState {
    Between,
    ArrayElement,
    ClassName,
}

/// Where the reading stands after the character `c`, read in `state`.
pub open spec fn next_scan_state(state: ScanState, c: char) -> ScanState {
    match state {
        ScanState::Between => if c == '[' {
            ScanState::ArrayElement
        } else if descriptor_type_of(c) == DescriptorType::Reference {
            ScanState::ClassName
        } else {
            ScanState::Between
        },
        ScanState::ArrayElement => if c == '[' {
            ScanState::ArrayElement
        } else if c == 'L' {
            ScanState::ClassName
        } else {
            ScanState::Between
        },
        ScanState::ClassName => if c == ';' {
            ScanState::Between
        } else {
            ScanState::ClassName
        },
    }
}

/// The parameter types after reading the first `n` characters of a
/// parameter list, and where the reading stands. A parameter starts at each
/// character read between parameters; an array type, whatever its element,
/// is one reference.
pub open spec fn scan_params(s: Seq<char>, n: int) -> (Seq<DescriptorType>, ScanState)
    decreases n,
{
    if n <= 0 {
        (Seq::empty(), ScanState::Between)
    } else {
        let (types, state) = scan_params(s, n - 1);
        let c = s[n - 1];
        (
            if state == ScanState::Between {
                types.push(descriptor_type_of(c))
            } else {
                types
            },
            next_scan_state(state, c),
        )
    }
}

/// The parameter types of a method descriptor, the last one first; `None`
/// for a descriptor without `(` or `)`.
pub open spec fn descriptor_params(s: Seq<char>) -> Option<Seq<DescriptorType>> {
    match (first_index_of(s, '('), first_index_of(s, ')')) {
        (Some(open), Some(close)) => {
            let params = s.subrange(open + 1, close);
            Some(scan_params(params, params.len() as int).0.reverse())
        },
        _ => None,
    }
}

/// A descriptor that has both brackets has its first `)` after its first `(`.
pub open spec fn brackets_ordered(s: Seq<char>) -> bool {
    match (first_index_of(s, '('), first_index_of(s, ')')) {
        (Some(open), Some(close)) => open < close,
        _ => true,
    }
}

/// The first position of `c` in `chars`.
fn find_char(chars: &Vec<char>, c: char) -> (res: Option<usize>)
    ensures
        res matches Some(i) ==> i < chars@.len(),
        match res {
            Some(i) => first_index_of(chars@, c) == Some(i as int),
            None => first_index_of(chars@, c) is None,
        },
{
    let mut i: usize = 0;
    while i < chars.len()
        invariant
            i <= chars@.len(),
            forall|j: int| 0 <= j < i ==> chars@[j] != c,
        decreases chars@.len() - i,
    {
        if chars[i] == c {
            proof {
                let k = choose|k: int| 0 <= k < chars@.len() && chars@[k] == c && forall|j: int| 0 <= j < k ==> chars@[j] != c;
                if k < i {
                } else if k > i {
                    assert(chars@[i as int] != c);
                }
            }
            return Some(i);
        }
        i += 1;
    }
    None
}

/// The parameter types of a method descriptor, the last one first (the
/// order in which the arguments come off the operand stack).
pub fn parse_descriptor(method_descriptor: &str) -> (res: JvmResult<Vec<DescriptorType>>)
    requires
        brackets_ordered(method_descriptor@),
    ensures
        match descriptor_params(method_descriptor@) {
            Some(types) => res matches Ok(v) && v@ == types,
            None => res matches Err(e) && (*e matches JvmError::InvalidMethodDescriptor(m) && m@
                == method_descriptor@),
        },
{
    let chars = str_to_chars(method_descriptor);
    proof {
        assert(chars.len() == chars@.len());
    }
    let param_list_start = match find_char(&chars, '(') {
        Some(start) => start + 1,
        None => return Err(JvmError::InvalidMethodDescriptor(method_descriptor.to_owned()).bx()),
    };
    let param_list_end = match find_char(&chars, ')') {
        Some(end) => end,
        None => return Err(JvmError::InvalidMethodDescriptor(method_descriptor.to_owned()).bx()),
    };
    let ghost params = chars@.subrange(param_list_start as int, param_list_end as int);
    let mut types: Vec<DescriptorType> = Vec::new();
    let mut state = ScanState::Between;
    let mut i = param_list_start;
    while i < param_list_end
        invariant
            param_list_start <= i <= param_list_end <= chars@.len(),
            params == chars@.subrange(param_list_start as int, param_list_end as int),
            (types@, state) == scan_params(params, i - param_list_start),
        decreases param_list_end - i,
    {
        let param_desc = chars[i];
        proof {
            assert(params[i - param_list_start] == param_desc);
        }
        state = match state {
            ScanState::Between => {
                let t = DescriptorType::from_char(param_desc);
                types.push(t);
                if param_desc == '[' {
                    ScanState::ArrayElement
                } else if t == DescriptorType::Reference {
                    ScanState::ClassName
                } else {
                    ScanState::Between
                }
            },
            ScanState::ArrayElement => if param_desc == '[' {
                ScanState::ArrayElement
            } else if param_desc == 'L' {
                ScanState::ClassName
            } else {
                ScanState::Between
            },
            ScanState::ClassName => if param_desc == ';' {
                ScanState::Between
            } else {
                ScanState::ClassName
            },
        };
        i += 1;
    }
    let mut reversed: Vec<DescriptorType> = Vec::new();
    let mut k = types.len();
    while k > 0
        invariant
            k <= types@.len(),
            reversed@ == types@.subrange(k as int, types@.len() as int).reverse(),
        decreases k,
    {
        k -= 1;
        reversed.push(types[k]);
        proof {
            assert(reversed@ =~= types@.subrange(k as int, types@.len() as int).reverse());
        }
    }
    proof {
        assert(types@.subrange(0, types@.len() as int) =~= types@);
    }
    Ok(reversed)
}

/// The types that arguments can be taken off the stack as.
pub open spec fn poppable(t: DescriptorType) -> bool {
    t == DescriptorType::Integer || t == DescriptorType::Long || t == DescriptorType::Reference
}

/// The parameter types of a method descriptor that a call takes off the
/// stack, the last one first: only where its brackets are in order and each
/// parameter is an int, a long or a reference.
pub open spec fn call_params(s: Seq<char>) -> Option<Seq<DescriptorType>> {
    if !brackets_ordered(s) {
        None
    } else {
        match descriptor_params(s) {
            Some(types) => if forall|i: int| 0 <= i < types.len() ==> poppable(#[trigger] types[i]) {
                Some(types)
            } else {
                None
            },
            None => None,
        }
    }
}

/// Whether the brackets of a method descriptor are in order.
fn brackets_in_order(chars: &Vec<char>) -> (res: bool)
    ensures
        res == brackets_ordered(chars@),
{
    match (find_char(chars, '('), find_char(chars, ')')) {
        (Some(open), Some(close)) => open < close,
        _ => true,
    }
}

/// The parameter types of the method that a call names, the last one first,
/// as [`parse_descriptor`] reads them; a descriptor whose brackets are out of
/// order, or with a parameter that cannot be taken off the stack, is
/// refused.
pub fn parameter_types(method_descriptor: &str) -> (res: JvmResult<Vec<DescriptorType>>)
    ensures
        match call_params(method_descriptor@) {
            Some(types) => res matches Ok(v) && v@ == types,
            None => res matches Err(e) && (*e matches JvmError::InvalidMethodDescriptor(m) && m@
                == method_descriptor@),
        },
{
    let chars = str_to_chars(method_descriptor);
    if !brackets_in_order(&chars) {
        return Err(JvmError::InvalidMethodDescriptor(method_descriptor.to_owned()).bx());
    }
    proof {
        assert(chars@ == method_descriptor@);
    }
    let types = match parse_descriptor(method_descriptor) {
        Ok(types) => types,
        Err(e) => return Err(e),
    };
    let mut i: usize = 0;
    while i < types.len()
        invariant
            i <= types@.len(),
            brackets_ordered(method_descriptor@),
            descriptor_params(method_descriptor@) == Some(types@),
            forall|j: int| 0 <= j < i ==> poppable(#[trigger] types@[j]),
        decreases types@.len() - i,
    {
        match types[i] {
            DescriptorType::Integer | DescriptorType::Long | DescriptorType::Reference => {},
            _ => {
                proof {
                    assert(!poppable(types@[i as int]));
                }
                return Err(JvmError::InvalidMethodDescriptor(method_descriptor.to_owned()).bx());
            },
        }
        i += 1;
    }
    Ok(types)
}

/// Taking the arguments for the first `k` of `types` (the last parameter
/// first) off the stack `s`: the arguments in parameter order (a long
/// followed by its filler), or the first error, and the stack left.
pub open spec fn pop_params_state(types: Seq<DescriptorType>, s: Seq<JvmValue>, k: int) -> (
    Result<Seq<JvmValue>, JvmError>,
    Seq<JvmValue>,
)
    decreases k,
{
    if k <= 0 {
        (Ok(Seq::empty()), s)
    } else {
        let (r, s1) = pop_params_state(types, s, k - 1);
        match r {
            Err(e) => (Err(e), s1),
            Ok(params) => match types[k - 1] {
                DescriptorType::Long => match spec_pop_long(s1) {
                    Ok(v) => (Ok(seq![JvmValue::Long(v), JvmValue::Unusable] + params), popped(s1)),
                    Err(e) => (Err(e), popped(s1)),
                },
                DescriptorType::Reference => match spec_pop_reference(s1) {
                    Ok(v) => (Ok(seq![JvmValue::Reference(v)] + params), popped(s1)),
                    Err(e) => (Err(e), popped(s1)),
                },
                _ => match spec_pop_int(s1) {
                    Ok(v) => (Ok(seq![JvmValue::Int(v)] + params), popped(s1)),
                    Err(e) => (Err(e), popped(s1)),
                },
            },
        }
    }
}

/// Once taking the arguments failed, it stays failed with the same stack.
proof fn lemma_pop_error_persists(types: Seq<DescriptorType>, s: Seq<JvmValue>, k: int, m: int)
    requires
        0 <= k <= m,
        pop_params_state(types, s, k).0 is Err,
    ensures
        pop_params_state(types, s, m) == pop_params_state(types, s, k),
    decreases m - k,
{
    if m > k {
        lemma_pop_error_persists(types, s, k, m - 1);
    }
}

/// Takes the arguments of a call off the stack; `types` are the parameter
/// types the last one first. The arguments come out in parameter order, a
/// long followed by a filler slot, as local variables hold them.
pub fn pop_params(types: &[DescriptorType], frame: &mut JvmStackFrame) -> (res: JvmResult<Vec<JvmValue>>)
    requires
        stack_usable(*old(frame)),
        forall|i: int| 0 <= i < types@.len() ==> poppable(#[trigger] types@[i]),
    ensures
        stack_usable(*final(frame)),
        only_stack_changed(*old(frame), *final(frame)),
        ({
            let (r, s) = pop_params_state(types@, old(frame).operand_stack@, types@.len() as int);
            &&& final(frame).operand_stack@ == s
            &&& match r {
                Ok(p) => res matches Ok(v) && v@ == p,
                Err(e) => res matches Err(b) && *b == e,
            }
        }),
{
    let mut params: Vec<JvmValue> = Vec::new();
    let mut k: usize = 0;
    while k < types.len()
        invariant
            k <= types@.len(),
            forall|i: int| 0 <= i < types@.len() ==> poppable(#[trigger] types@[i]),
            stack_usable(*frame),
            only_stack_changed(*old(frame), *frame),
            pop_params_state(types@, old(frame).operand_stack@, k as int) == (
                Ok::<Seq<JvmValue>, JvmError>(params@),
                frame.operand_stack@,
            ),
        decreases types@.len() - k,
    {
        let t = types[k];
        let ghost before = params@;
        let ghost s1 = frame.operand_stack@;
        proof {
            assert(poppable(types@[k as int]));
        }
        match t {
            DescriptorType::Integer => {
                let v = match pop_int(frame) {
                    Ok(v) => v,
                    Err(e) => {
                        proof {
                            lemma_pop_error_persists(types@, old(frame).operand_stack@, k as int + 1, types@.len() as int);
                        }
                        return Err(e);
                    },
                };
                params.insert(0, JvmValue::Int(v));
                proof {
                    assert(params@ =~= seq![JvmValue::Int(v)] + before);
                }
            },
            DescriptorType::Long => {
                let v = match pop_long(frame) {
                    Ok(v) => v,
                    Err(e) => {
                        proof {
                            lemma_pop_error_persists(types@, old(frame).operand_stack@, k as int + 1, types@.len() as int);
                        }
                        return Err(e);
                    },
                };
                params.insert(0, JvmValue::Unusable);
                params.insert(0, JvmValue::Long(v));
                proof {
                    assert(params@ =~= seq![JvmValue::Long(v), JvmValue::Unusable] + before);
                }
            },
            DescriptorType::Reference => {
                let v = match pop_reference(frame) {
                    Ok(v) => v,
                    Err(e) => {
                        proof {
                            lemma_pop_error_persists(types@, old(frame).operand_stack@, k as int + 1, types@.len() as int);
                        }
                        return Err(e);
                    },
                };
                params.insert(0, JvmValue::Reference(v));
                proof {
                    assert(params@ =~= seq![JvmValue::Reference(v)] + before);
                }
            },
            _ => vstd::pervasive::unreached(),
        }
        k += 1;
    }
    Ok(params)
}

/// Takes the arguments of a call of a virtual method off the stack, after
/// the reference to the object it is called on.
pub fn pop_params_for_virtual(object_ref: usize, types: &[DescriptorType], frame: &mut JvmStackFrame) -> (res: JvmResult<Vec<JvmValue>>)
    requires
        stack_usable(*old(frame)),
        forall|i: int| 0 <= i < types@.len() ==> poppable(#[trigger] types@[i]),
    ensures
        stack_usable(*final(frame)),
        only_stack_changed(*old(frame), *final(frame)),
        ({
            let (r, s) = pop_params_state(types@, old(frame).operand_stack@, types@.len() as int);
            &&& final(frame).operand_stack@ == s
            &&& match r {
                Ok(p) => res matches Ok(v) && v@ == seq![JvmValue::Reference(Some(object_ref))] + p,
                Err(e) => res matches Err(b) && *b == e,
            }
        }),
{
    let mut params: Vec<JvmValue> = Vec::new();
    params.push(JvmValue::Reference(Some(object_ref)));
    let mut rest = pop_params(types, frame)?;
    params.append(&mut rest);
    Ok(params)
}

/// Takes the arguments of a call of an instance method off the stack, then
/// the reference to the object it is called on, which comes first among the
/// parameters; `None` when that reference is null.
pub fn pop_params_for_special(types: &[DescriptorType], frame: &mut JvmStackFrame) -> (res: JvmResult<
    Option<Vec<JvmValue>>,
>)
    requires
        stack_usable(*old(frame)),
        forall|i: int| 0 <= i < types@.len() ==> poppable(#[trigger] types@[i]),
    ensures
        stack_usable(*final(frame)),
        only_stack_changed(*old(frame), *final(frame)),
        ({
            let (r, s) = pop_params_state(types@, old(frame).operand_stack@, types@.len() as int);
            match r {
                Err(e) => res matches Err(b) && *b == e && final(frame).operand_stack@ == s,
                Ok(p) => match spec_pop_reference(s) {
                    Err(e) => res matches Err(b) && *b == e && final(frame).operand_stack@ == popped(s),
                    Ok(None) => res matches Ok(None) && final(frame).operand_stack@ == popped(s),
                    Ok(Some(o)) => res matches Ok(Some(v)) && v@ == seq![JvmValue::Reference(Some(o))] + p
                        && final(frame).operand_stack@ == popped(s),
                },
            }
        }),
{
    let mut params = pop_params(types, frame)?;
    let object = match pop_reference(frame)? {
        Some(object) => object,
        None => return Ok(None),
    };
    let ghost rest = params@;
    params.insert(0, JvmValue::Reference(Some(object)));
    proof {
        assert(params@ =~= seq![JvmValue::Reference(Some(object))] + rest);
    }
    Ok(Some(params))
}

} // verus!

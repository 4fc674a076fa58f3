//! Checks made on a parsed class file before the virtual machine uses it.
use vstd::prelude::*;

use crate::bytecode::{ALOAD, ASTORE, ILOAD, IRETURN, ISTORE, RETURN};
use crate::class_file::{
    attribute_view, cp_class_name, cp_name_and_type, cp_utf8, cp_wf, constant_indices_valid,
    lemma_attributes_view, valid_cp_index, Attribute, AttributeV, Bytecode, ClassFile,
    ClassFileV, ConstantValue, ConstantValueV, Method,
};

verus! {

#[derive(Debug, Clone, Copy, PartialEq, Eq, Structural)]
pub enum VerifierError {
    MissingMethodDescriptor,
    MissingReturnFromMethod,
    InvalidIndexingInstruction,
    InvalidNameConstantIndex,
    InvalidNameAndTypeIndex,
    InvalidUTF8Index,
    InvalidClassIndex,
}

impl VerifierError {
    /// The description of the error that is shown to the user.
    pub open spec fn text(&self) -> Seq<char> {
        match self {
            VerifierError::MissingMethodDescriptor => "Missing method descriptor"@,
            VerifierError::MissingReturnFromMethod => "Missing return instruction from method"@,
            VerifierError::InvalidIndexingInstruction => "Invalid load instruction"@,
            VerifierError::InvalidNameConstantIndex => "Invalid name constant index"@,
            VerifierError::InvalidNameAndTypeIndex => "Invalid name and type index"@,
            VerifierError::InvalidUTF8Index => "Invalid UTF8 index"@,
            VerifierError::InvalidClassIndex => "Invalid class index"@,
        }
    }

    /// The description of the error that is shown to the user.
    pub fn message(&self) -> (res: String)
        ensures
            res@ == self.text(),
    {
        match self {
            VerifierError::MissingMethodDescriptor => "Missing method descriptor".to_owned(),
            VerifierError::MissingReturnFromMethod => "Missing return instruction from method".to_owned(),
            VerifierError::InvalidIndexingInstruction => "Invalid load instruction".to_owned(),
            VerifierError::InvalidNameConstantIndex => "Invalid name constant index".to_owned(),
            VerifierError::InvalidNameAndTypeIndex => "Invalid name and type index".to_owned(),
            VerifierError::InvalidUTF8Index => "Invalid UTF8 index".to_owned(),
            VerifierError::InvalidClassIndex => "Invalid class index".to_owned(),
        }
    }
}

pub type VerifierResult<T> = Result<T, VerifierError>;

/// The check made on one constant pool entry: class and string entries name a
/// UTF-8 entry; field, method and interface method references name a class
/// with a UTF-8 name and a name-and-type whose two parts are UTF-8.
pub open spec fn check_constant(cp: Seq<ConstantValueV>, c: ConstantValueV) -> Result<(), VerifierError> {
    match c {
        ConstantValueV::MethodRef { class_index, name_and_type_index } => check_member_ref(
            cp,
            class_index,
            name_and_type_index,
        ),
        ConstantValueV::Class { name_index } => check_utf8(cp, name_index),
        ConstantValueV::String { utf8_index } => check_utf8(cp, utf8_index),
        ConstantValueV::FieldRef { class_index, name_and_type_index } => check_member_ref(
            cp,
            class_index,
            name_and_type_index,
        ),
        ConstantValueV::InterfaceMethodRef { class_index, name_and_type_index } => check_member_ref(
            cp,
            class_index,
            name_and_type_index,
        ),
        _ => Ok(()),
    }
}

pub open spec fn check_utf8(cp: Seq<ConstantValueV>, index: usize) -> Result<(), VerifierError> {
    if cp_utf8(cp, index as int) is Some {
        Ok(())
    } else {
        Err(VerifierError::InvalidUTF8Index)
    }
}

pub open spec fn check_member_ref(cp: Seq<ConstantValueV>, class_index: usize, nat_index: usize) -> Result<
    (),
    VerifierError,
> {
    if cp_class_name(cp, class_index as int) is None {
        Err(VerifierError::InvalidClassIndex)
    } else if cp_name_and_type(cp, nat_index as int) is None {
        Err(VerifierError::InvalidNameAndTypeIndex)
    } else {
        Ok(())
    }
}

/// The outcome of checking the entries from `from` on: the first failure, if any.
pub open spec fn check_constants_from(cp: Seq<ConstantValueV>, from: int) -> Result<(), VerifierError>
    decreases cp.len() - from,
{
    if from < 0 || from >= cp.len() {
        Ok(())
    } else {
        match check_constant(cp, cp[from]) {
            Ok(()) => check_constants_from(cp, from + 1),
            Err(e) => Err(e),
        }
    }
}

/// Verifies a class file: its constant pool references are checked; the class
/// file is handed back unchanged when they hold.
pub fn verify_class_file(class: ClassFile) -> (res: VerifierResult<ClassFile>)
    requires
        class.wf(),
    ensures
        res is Ok <==> check_constants_from(class.constant_pool@, 0) is Ok,
        res matches Ok(c) ==> c@ == class@ && c.wf(),
        res matches Err(e) ==> check_constants_from(class.constant_pool@, 0) == Err::<(), VerifierError>(
            e,
        ),
{
    verify_constant_pool(&class)?;
    Ok(class)
}

/// Checks every constant pool entry in order, reporting the first failure.
pub fn verify_constant_pool(class: &ClassFile) -> (res: VerifierResult<()>)
    requires
        class.wf(),
    ensures
        res == check_constants_from(class.constant_pool@, 0),
{
    let constants = class.constant_pool.get_all_constants();
    let ghost cp = class.constant_pool@;
    let mut i: usize = 0;
    while i < constants.len()
        invariant
            class.wf(),
            cp == class.constant_pool@,
            constants@.map_values(|c: ConstantValue| c@) == cp,
            0 <= i <= constants@.len(),
            check_constants_from(cp, 0) == check_constants_from(cp, i as int),
        decreases constants@.len() - i,
    {
        proof {
            assert(cp[i as int] == constants@[i as int]@);
            assert(constant_indices_valid(cp[i as int], cp.len() as int));
        }
        match constants[i] {
            ConstantValue::MethodRef { class_index, name_and_type_index } => verify_method_ref_constant(
                class,
                class_index,
                name_and_type_index,
            )?,
            ConstantValue::Class { name_index } => verify_utf8_constant(class, name_index)?,
            ConstantValue::String { utf8_index } => verify_utf8_constant(class, utf8_index)?,
            ConstantValue::FieldRef { class_index, name_and_type_index } => verify_field_ref_constant(
                class,
                class_index,
                name_and_type_index,
            )?,
            ConstantValue::InterfaceMethodRef { class_index, name_and_type_index } =>
                verify_method_ref_constant(class, class_index, name_and_type_index)?,
            _ => {},
        }
        i += 1;
    }
    Ok(())
}

pub fn verify_field_ref_constant(class: &ClassFile, class_index: usize, name_and_type_index: usize) -> (res:
    VerifierResult<()>)
    requires
        class.wf(),
        valid_cp_index(class.constant_pool@.len() as int, class_index),
        valid_cp_index(class.constant_pool@.len() as int, name_and_type_index),
    ensures
        res == check_member_ref(class.constant_pool@, class_index, name_and_type_index),
{
    verify_class_index(class, class_index)?;
    verify_name_and_type_index(class, name_and_type_index)?;
    Ok(())
}

pub fn verify_method_ref_constant(class: &ClassFile, class_index: usize, name_and_type_index: usize) -> (res:
    VerifierResult<()>)
    requires
        class.wf(),
        valid_cp_index(class.constant_pool@.len() as int, class_index),
        valid_cp_index(class.constant_pool@.len() as int, name_and_type_index),
    ensures
        res == check_member_ref(class.constant_pool@, class_index, name_and_type_index),
{
    verify_class_index(class, class_index)?;
    verify_name_and_type_index(class, name_and_type_index)?;
    Ok(())
}

pub fn verify_name_and_type_index(class: &ClassFile, name_and_type_index: usize) -> (res:
    VerifierResult<()>)
    requires
        class.wf(),
        valid_cp_index(class.constant_pool@.len() as int, name_and_type_index),
    ensures
        res is Ok <==> cp_name_and_type(class.constant_pool@, name_and_type_index as int) is Some,
        res matches Err(e) ==> e == VerifierError::InvalidNameAndTypeIndex,
{
    if class.constant_pool.get_name_and_type(name_and_type_index).is_some() {
        Ok(())
    } else {
        Err(VerifierError::InvalidNameAndTypeIndex)
    }
}

pub fn verify_class_index(class: &ClassFile, class_index: usize) -> (res: VerifierResult<()>)
    requires
        class.wf(),
        valid_cp_index(class.constant_pool@.len() as int, class_index),
    ensures
        res is Ok <==> cp_class_name(class.constant_pool@, class_index as int) is Some,
        res matches Err(e) ==> e == VerifierError::InvalidClassIndex,
{
    if class.constant_pool.get_class_name(class_index).is_some() {
        Ok(())
    } else {
        Err(VerifierError::InvalidClassIndex)
    }
}

pub fn verify_utf8_constant(class: &ClassFile, index: usize) -> (res: VerifierResult<()>)
    requires
        class.wf(),
        valid_cp_index(class.constant_pool@.len() as int, index),
    ensures
        res == check_utf8(class.constant_pool@, index),
{
    if class.constant_pool.get_utf8(index).is_some() {
        Ok(())
    } else {
        Err(VerifierError::InvalidUTF8Index)
    }
}

pub fn get_descriptor<'a>(class: &'a ClassFile, method: &'a Method) -> (res: VerifierResult<&'a str>)
    requires
        class.wf(),
        valid_cp_index(class.constant_pool@.len() as int, method.descriptor_index),
    ensures
        res is Ok <==> cp_utf8(class.constant_pool@, method.descriptor_index as int) is Some,
        res matches Ok(d) ==> cp_utf8(class.constant_pool@, method.descriptor_index as int) == Some(
            d@,
        ),
        res matches Err(e) ==> e == VerifierError::MissingMethodDescriptor,
{
    if let Some(desc) = class.constant_pool.get_utf8(method.descriptor_index) {
        Ok(desc)
    } else {
        Err(VerifierError::MissingMethodDescriptor)
    }
}

/// The instructions that name a local variable in the byte after them.
pub open spec fn is_load_store_n(code: u8) -> bool {
    code == ILOAD || code == ISTORE || code == ALOAD || code == ASTORE
}

/// The load/store check on one code array: none of the four indexed
/// load/store instructions stands second to last, and each of them (outside
/// the last byte) names a local variable below `max_locals`.
pub open spec fn load_stores_valid(code: Seq<u8>, max_locals: u16) -> bool {
    code.len() < 2 || (!is_load_store_n(code[code.len() - 2]) && forall|i: int|
        0 <= i < code.len() - 1 && is_load_store_n(#[trigger] code[i]) ==> (code[i + 1] as u16)
            < max_locals)
}

fn is_load_store_n_instruction(code: u8) -> (res: bool)
    ensures
        res == is_load_store_n(code),
{
    code == ILOAD || code == ISTORE || code == ALOAD || code == ASTORE
}

/// Checks that the indexed load and store instructions of `bytecode` name
/// existing local variables.
pub fn verify_load_store_bytecode(bytecode: &Bytecode) -> (res: VerifierResult<()>)
    ensures
        res is Ok <==> load_stores_valid(bytecode.code@, bytecode.max_locals),
        res matches Err(e) ==> e == VerifierError::InvalidIndexingInstruction,
{
    let bytecode_len = bytecode.code.len();
    if bytecode_len < 2 {
        return Ok(());
    }
    if is_load_store_n_instruction(bytecode.code[bytecode_len - 2]) {
        return Err(VerifierError::InvalidIndexingInstruction);
    }
    let mut i: usize = 0;
    while i + 1 < bytecode_len
        invariant
            bytecode_len == bytecode.code@.len(),
            bytecode_len >= 2,
            !is_load_store_n(bytecode.code@[bytecode_len - 2]),
            0 <= i <= bytecode_len - 1,
            forall|j: int|
                0 <= j < i && is_load_store_n(#[trigger] bytecode.code@[j]) ==> (
                bytecode.code@[j + 1] as u16) < bytecode.max_locals,
        decreases bytecode_len - i,
    {
        if is_load_store_n_instruction(bytecode.code[i]) {
            let address = bytecode.code[i + 1];
            if address as u16 >= bytecode.max_locals {
                return Err(VerifierError::InvalidIndexingInstruction);
            }
        }
        i += 1;
    }
    Ok(())
}

/// The outcome of the load/store check over the `Code` attributes among `attrs`
/// from position `from` on.
pub open spec fn attrs_load_stores(attrs: Seq<AttributeV>, from: int) -> bool
    decreases attrs.len() - from,
{
    if from < 0 || from >= attrs.len() {
        true
    } else {
        (attrs[from] matches AttributeV::Code(b) ==> load_stores_valid(b.code, b.max_locals))
            && attrs_load_stores(attrs, from + 1)
    }
}

/// Every `Code` attribute of every method passes the load/store check.
pub open spec fn class_load_stores_valid(cf: ClassFileV) -> bool {
    forall|i: int| 0 <= i < cf.methods.len() ==> attrs_load_stores(#[trigger] cf.methods[i].attributes, 0)
}

proof fn lemma_attrs_load_stores(attrs: Seq<AttributeV>, from: int)
    requires
        0 <= from <= attrs.len(),
    ensures
        attrs_load_stores(attrs, from) <==> forall|j: int|
            from <= j < attrs.len() ==> (#[trigger] attrs[j] matches AttributeV::Code(b)
                ==> load_stores_valid(b.code, b.max_locals)),
    decreases attrs.len() - from,
{
    if from < attrs.len() {
        lemma_attrs_load_stores(attrs, from + 1);
    }
}

/// Runs the load/store check over every `Code` attribute of every method.
pub fn verify_load_and_stores(class: &ClassFile) -> (res: VerifierResult<()>)
    ensures
        res is Ok <==> class_load_stores_valid(class@),
        res matches Err(e) ==> e == VerifierError::InvalidIndexingInstruction,
{
    let ghost v = class@;
    let mut m: usize = 0;
    while m < class.methods.len()
        invariant
            v == class@,
            0 <= m <= class.methods@.len(),
            v.methods.len() == class.methods@.len(),
            forall|i: int| 0 <= i < m ==> attrs_load_stores(#[trigger] v.methods[i].attributes, 0),
        decreases class.methods@.len() - m,
    {
        let method = &class.methods[m];
        proof {
            assert(v.methods[m as int] == method@);
            lemma_attributes_view(method.attributes@);
            lemma_attrs_load_stores(v.methods[m as int].attributes, 0);
        }
        let mut a: usize = 0;
        while a < method.attributes.len()
            invariant
                v == class@,
                m < class.methods@.len(),
                method == class.methods@[m as int],
                v.methods[m as int] == method@,
                0 <= a <= method.attributes@.len(),
                forall|k: int|
                    0 <= k < method.attributes@.len() ==> #[trigger] v.methods[m as int].attributes[k]
                        == attribute_view(method.attributes@[k]),
                v.methods[m as int].attributes.len() == method.attributes@.len(),
                forall|j: int|
                    0 <= j < a ==> (#[trigger] v.methods[m as int].attributes[j] matches AttributeV::Code(
                        b,
                    ) ==> load_stores_valid(b.code, b.max_locals)),
            decreases method.attributes@.len() - a,
        {
            match &method.attributes[a] {
                Attribute::Code(bytecode) => {
                    let r = verify_load_store_bytecode(bytecode);
                    if r.is_err() {
                        proof {
                            lemma_attrs_load_stores(v.methods[m as int].attributes, 0);
                            assert(v.methods[m as int].attributes[a as int] == attribute_view(
                                method.attributes@[a as int],
                            ));
                            assert(!attrs_load_stores(v.methods[m as int].attributes, 0));
                        }
                        return r;
                    }
                },
                _ => {},
            }
            a += 1;
        }
        proof {
            lemma_attrs_load_stores(v.methods[m as int].attributes, 0);
        }
        m += 1;
    }
    Ok(())
}

pub open spec fn is_return(code: u8) -> bool {
    code == RETURN || code == IRETURN
}

/// The return check, which looks at the first `Code` attribute of the class
/// only: walking the methods and their attributes in order, each attribute
/// met first needs its method's descriptor to be UTF-8; the first `Code`
/// attribute decides, by whether its last instruction is `return` or `ireturn`.
pub open spec fn returns_from(cf: ClassFileV, m: int, a: int) -> Result<(), VerifierError>
    decreases cf.methods.len() - m, cf.methods[m].attributes.len() - a,
{
    if m < 0 || m >= cf.methods.len() {
        Ok(())
    } else if a < 0 || a >= cf.methods[m].attributes.len() {
        returns_from(cf, m + 1, 0)
    } else if cp_utf8(cf.constant_pool, cf.methods[m].descriptor_index as int) is None {
        Err(VerifierError::MissingMethodDescriptor)
    } else {
        match cf.methods[m].attributes[a] {
            AttributeV::Code(b) => if b.code.len() > 0 && is_return(b.code.last()) {
                Ok(())
            } else {
                Err(VerifierError::MissingReturnFromMethod)
            },
            _ => returns_from(cf, m, a + 1),
        }
    }
}

/// Runs the return check that `returns_from` describes.
pub fn verify_returns(class: &ClassFile) -> (res: VerifierResult<()>)
    requires
        class.wf(),
    ensures
        res == returns_from(class@, 0, 0),
{
    let ghost v = class@;
    let mut m: usize = 0;
    while m < class.methods.len()
        invariant
            class.wf(),
            v == class@,
            0 <= m <= class.methods@.len(),
            v.methods.len() == class.methods@.len(),
            returns_from(v, 0, 0) == returns_from(v, m as int, 0),
        decreases class.methods@.len() - m,
    {
        let method = &class.methods[m];
        proof {
            assert(v.methods[m as int] == method@);
            lemma_attributes_view(method.attributes@);
        }
        let mut a: usize = 0;
        while a < method.attributes.len()
            invariant
                class.wf(),
                v == class@,
                m < class.methods@.len(),
                method == class.methods@[m as int],
                v.methods[m as int] == method@,
                0 <= a <= method.attributes@.len(),
                forall|k: int|
                    0 <= k < method.attributes@.len() ==> #[trigger] v.methods[m as int].attributes[k]
                        == attribute_view(method.attributes@[k]),
                v.methods[m as int].attributes.len() == method.attributes@.len(),
                returns_from(v, 0, 0) == returns_from(v, m as int, a as int),
            decreases method.attributes@.len() - a,
        {
            let _descriptor = get_descriptor(class, method)?;
            match &method.attributes[a] {
                Attribute::Code(bytecode) => {
                    let len = bytecode.code.len();
                    let has_return = len > 0 && (bytecode.code[len - 1] == RETURN
                        || bytecode.code[len - 1] == IRETURN);
                    return if has_return {
                        Ok(())
                    } else {
                        Err(VerifierError::MissingReturnFromMethod)
                    };
                },
                _ => {},
            }
            a += 1;
        }
        m += 1;
    }
    Ok(())
}

} // verus!

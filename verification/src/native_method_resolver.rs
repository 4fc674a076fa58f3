//! Native methods of the class library that the machine implements itself:
//! the table that names them, and those that only compute a value.
pub mod system_methods;
pub mod jvankom_print_stream_methods;

use vstd::prelude::*;

use crate::bytecode::{expect_double, expect_float, expect_long, expect_reference, unbox};
use crate::jvm_model::{
    JvmError, JvmResult, JvmType, JvmValue, type_error, CLASS_CLASS_NAME, DOUBLE_CLASS_NAME, FLOAT_CLASS_NAME,
    OBJECT_CLASS_NAME, SYSTEM_CLASS_NAME,
};
use crate::text::str_equal;

verus! {

/// The native methods that the machine implements.
#[derive(Debug, Clone, Copy, PartialEq, Eq, Structural)]
pub enum NativeMethod {
    /// `java/lang/Object.<init>()V`: does nothing.
    ObjectConstructor,
    /// `registerNatives()V` of `java/lang/Object`, `java/lang/System` and
    /// `java/lang/Class`: does nothing.
    RegisterNatives,
    /// `java/lang/System.arraycopy`.
    ArrayCopy,
    /// `java/lang/Class.desiredAssertionStatus0`: assertions are off.
    DesiredAssertionStatus0,
    /// `java/lang/Class.getPrimitiveClass`: gives null.
    GetPrimitiveClass,
    /// `java/lang/Float.floatToRawIntBits`.
    FloatToRawIntBits,
    /// `java/lang/Double.doubleToRawLongBits`.
    DoubleToRawLongBits,
    /// `java/lang/Double.longBitsToDouble`.
    LongBitsToDouble,
}

/// The native method that the class `class`, the method name `name` and the
/// descriptor `descriptor` name, where the machine implements it.
pub open spec fn native_method_of(class: Seq<char>, name: Seq<char>, descriptor: Seq<char>) -> Option<NativeMethod> {
    if class == OBJECT_CLASS_NAME@ && name == "<init>"@ && descriptor == "()V"@ {
        Some(NativeMethod::ObjectConstructor)
    } else if (class == OBJECT_CLASS_NAME@ || class == SYSTEM_CLASS_NAME@ || class == CLASS_CLASS_NAME@) && name
        == "registerNatives"@ && descriptor == "()V"@ {
        Some(NativeMethod::RegisterNatives)
    } else if class == SYSTEM_CLASS_NAME@ && name == "arraycopy"@ && descriptor
        == "(Ljava/lang/Object;ILjava/lang/Object;II)V"@ {
        Some(NativeMethod::ArrayCopy)
    } else if class == CLASS_CLASS_NAME@ && name == "desiredAssertionStatus0"@ && descriptor
        == "(Ljava/lang/Class;)Z"@ {
        Some(NativeMethod::DesiredAssertionStatus0)
    } else if class == CLASS_CLASS_NAME@ && name == "getPrimitiveClass"@ && descriptor
        == "(Ljava/lang/String;)Ljava/lang/Class;"@ {
        Some(NativeMethod::GetPrimitiveClass)
    } else if class == FLOAT_CLASS_NAME@ && name == "floatToRawIntBits"@ && descriptor == "(F)I"@ {
        Some(NativeMethod::FloatToRawIntBits)
    } else if class == DOUBLE_CLASS_NAME@ && name == "doubleToRawLongBits"@ && descriptor == "(D)J"@ {
        Some(NativeMethod::DoubleToRawLongBits)
    } else if class == DOUBLE_CLASS_NAME@ && name == "longBitsToDouble"@ && descriptor == "(J)D"@ {
        Some(NativeMethod::LongBitsToDouble)
    } else {
        None
    }
}

/// Looks up the native method of class `class_name` named `method_name`
/// with `method_descriptor`; one that the machine does not implement is an
/// error.
pub fn find_native_method(class_name: &str, method_name: &str, method_descriptor: &str) -> (res: JvmResult<
    NativeMethod,
>)
    ensures
        match native_method_of(class_name@, method_name@, method_descriptor@) {
            Some(m) => res matches Ok(r) && r == m,
            None => res matches Err(e) && (*e matches JvmError::NativeMethodImplementationNotFound {
                class_name: c,
                method_name: n,
                method_descriptor: d,
            } && c@ == class_name@ && n@ == method_name@ && d@ == method_descriptor@),
        },
{
    let object = str_equal(class_name, OBJECT_CLASS_NAME);
    let system = str_equal(class_name, SYSTEM_CLASS_NAME);
    let class = str_equal(class_name, CLASS_CLASS_NAME);
    let float = str_equal(class_name, FLOAT_CLASS_NAME);
    let double = str_equal(class_name, DOUBLE_CLASS_NAME);
    let no_args = str_equal(method_descriptor, "()V");
    if object && str_equal(method_name, "<init>") && no_args {
        Ok(NativeMethod::ObjectConstructor)
    } else if (object || system || class) && str_equal(method_name, "registerNatives") && no_args {
        Ok(NativeMethod::RegisterNatives)
    } else if system && str_equal(method_name, "arraycopy") && str_equal(
        method_descriptor,
        "(Ljava/lang/Object;ILjava/lang/Object;II)V",
    ) {
        Ok(NativeMethod::ArrayCopy)
    } else if class && str_equal(method_name, "desiredAssertionStatus0") && str_equal(
        method_descriptor,
        "(Ljava/lang/Class;)Z",
    ) {
        Ok(NativeMethod::DesiredAssertionStatus0)
    } else if class && str_equal(method_name, "getPrimitiveClass") && str_equal(
        method_descriptor,
        "(Ljava/lang/String;)Ljava/lang/Class;",
    ) {
        Ok(NativeMethod::GetPrimitiveClass)
    } else if float && str_equal(method_name, "floatToRawIntBits") && str_equal(method_descriptor, "(F)I") {
        Ok(NativeMethod::FloatToRawIntBits)
    } else if double && str_equal(method_name, "doubleToRawLongBits") && str_equal(method_descriptor, "(D)J") {
        Ok(NativeMethod::DoubleToRawLongBits)
    } else if double && str_equal(method_name, "longBitsToDouble") && str_equal(method_descriptor, "(J)D") {
        Ok(NativeMethod::LongBitsToDouble)
    } else {
        Err(
            JvmError::NativeMethodImplementationNotFound {
                class_name: class_name.to_owned(),
                method_name: method_name.to_owned(),
                method_descriptor: method_descriptor.to_owned(),
            }.bx(),
        )
    }
}

/// What a native method that only computes gives for its arguments `p`:
/// the value to push, if any, or the error of an argument of the wrong
/// type. Floats and doubles are held as their bit patterns, so their raw
/// bits are those bits, and the other way round.
pub open spec fn native_value(method: NativeMethod, p: Seq<JvmValue>) -> Result<Option<JvmValue>, JvmError> {
    match method {
        NativeMethod::DesiredAssertionStatus0 => match p[0] {
            JvmValue::Reference(_) => Ok(Some(JvmValue::Int(0))),
            v => Err(type_error(JvmType::Reference, v)),
        },
        NativeMethod::GetPrimitiveClass => match p[0] {
            JvmValue::Reference(_) => Ok(Some(JvmValue::Reference(None))),
            v => Err(type_error(JvmType::Reference, v)),
        },
        NativeMethod::FloatToRawIntBits => match p[0] {
            JvmValue::Float(bits) => Ok(Some(JvmValue::Int(bits as i32))),
            v => Err(type_error(JvmType::Float, v)),
        },
        NativeMethod::DoubleToRawLongBits => match p[0] {
            JvmValue::Double(bits) => Ok(Some(JvmValue::Long(bits as i64))),
            v => Err(type_error(JvmType::Double, v)),
        },
        NativeMethod::LongBitsToDouble => match p[0] {
            JvmValue::Long(l) => Ok(Some(JvmValue::Double(l as u64))),
            v => Err(type_error(JvmType::Long, v)),
        },
        _ => Ok(None),
    }
}

/// Whether `method` takes an argument that it reads.
pub open spec fn reads_argument(method: NativeMethod) -> bool {
    !(method is ObjectConstructor || method is RegisterNatives || method is ArrayCopy)
}

/// Whether `method` takes an argument that it reads.
pub fn takes_argument(method: NativeMethod) -> (res: bool)
    ensures
        res == reads_argument(method),
{
    match method {
        NativeMethod::ObjectConstructor | NativeMethod::RegisterNatives | NativeMethod::ArrayCopy => false,
        _ => true,
    }
}

/// Runs a native method other than `arraycopy` on the arguments `params`:
/// the value it pushes, if any.
pub fn run_native_method(method: NativeMethod, params: &Vec<JvmValue>) -> (res: JvmResult<Option<JvmValue>>)
    requires
        !(method is ArrayCopy),
        reads_argument(method) ==> params@.len() >= 1 && !(params@[0] is Unusable),
    ensures
        unbox(res) == native_value(method, params@),
{
    match method {
        NativeMethod::DesiredAssertionStatus0 => {
            expect_reference(params[0])?;
            Ok(Some(JvmValue::Int(0)))
        },
        NativeMethod::GetPrimitiveClass => {
            expect_reference(params[0])?;
            Ok(Some(JvmValue::Reference(None)))
        },
        NativeMethod::FloatToRawIntBits => {
            let bits = expect_float(params[0])?;
            Ok(Some(JvmValue::Int(bits as i32)))
        },
        NativeMethod::DoubleToRawLongBits => {
            let bits = expect_double(params[0])?;
            Ok(Some(JvmValue::Long(bits as i64)))
        },
        NativeMethod::LongBitsToDouble => {
            let long = expect_long(params[0])?;
            Ok(Some(JvmValue::Double(long as u64)))
        },
        _ => Ok(None),
    }
}

} // verus!

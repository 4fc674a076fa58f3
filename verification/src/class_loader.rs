//! Where classes come from, and what a lookup makes of a parsed class file.
use vstd::prelude::*;

use crate::class_file::{ClassFile, cp_class_name, valid_cp_index};
use crate::class_parser::ClassParserError;
use crate::class_verifier::{check_constants_from, verify_class_file};
use crate::jvm_model::{JvmError, JvmResult};

verus! {

/// A place to look for class files: a directory or a jar archive, by path.
#[derive(Debug, Clone, PartialEq, Eq)]
pub enum ClassSource {
    Directory(String),
    Jar(String),
}

/// The sources that could not be opened.
#[derive(Debug, Clone)]
pub struct ClassLoaderError {
    pub invalid_sources: Vec<ClassSource>,
}

/// What a lookup makes of the outcome of parsing the class file of
/// `class_name`: a parsed file is verified and loaded; a file that could not
/// be read means that the class is not in this source (`None`); any other
/// parse error fails the lookup.
pub fn handle_parse_result(
    class_result: Result<ClassFile, ClassParserError>,
    class_name: &str,
) -> (res: JvmResult<Option<ClassFile>>)
    requires
        class_result matches Ok(c) ==> c.wf(),
    ensures
        match class_result {
            Ok(c) => match check_constants_from(c.constant_pool@, 0) {
                Ok(_) => res matches Ok(Some(v)) && v@ == c@ && v.wf(),
                Err(e) => res matches Err(b) && (*b matches JvmError::ClassVerificationError {
                    verified_class,
                    error,
                } && verified_class@ == class_name@ && error == e),
            },
            Err(ClassParserError::ErrorReadingFile(_)) => res matches Ok(None),
            Err(error) => res matches Err(b) && (*b matches JvmError::ClassParserError {
                parsed_class,
                error: err,
            } && parsed_class@ == class_name@ && err == error),
        },
{
    match class_result {
        Ok(class) => match verify_class_file(class) {
            Ok(class_file) => Ok(Some(class_file)),
            Err(error) => Err(
                JvmError::ClassVerificationError { error, verified_class: class_name.to_owned() }.bx(),
            ),
        },
        Err(ClassParserError::ErrorReadingFile(message)) => Ok(None),
        Err(error) => Err(JvmError::ClassParserError { parsed_class: class_name.to_owned(), error }.bx()),
    }
}


/// The names of the classes that must be loaded before the class whose file
/// is `cf`: its super class, where its entry names one, and its interfaces,
/// in order; `None` where an interface entry names no class.
pub open spec fn parent_names(cf: ClassFile) -> Option<(Option<Seq<char>>, Seq<Seq<char>>)> {
    let cp = cf.constant_pool@;
    let super_name = match cf.super_class_index {
        Some(s) => cp_class_name(cp, s as int),
        None => None,
    };
    if forall|k: int|
        0 <= k < cf.interfaces@.len() ==> valid_cp_index(cp.len() as int, #[trigger] cf.interfaces@[k])
            && cp_class_name(cp, cf.interfaces@[k] as int) is Some {
        Some((super_name, cf.interfaces@.map_values(|i: usize| cp_class_name(cp, i as int)->Some_0)))
    } else {
        None
    }
}

/// The names of the classes to load before the class whose file is `cf`, as
/// `parent_names` says: a class is registered only after its super class and
/// its interfaces.
pub fn class_parents(cf: &ClassFile) -> (res: Option<(Option<String>, Vec<String>)>)
    requires
        cf.wf(),
    ensures
        match parent_names(*cf) {
            Some((s, names)) => res matches Some((rs, rn)) && (match rs {
                Some(x) => s == Some(x@),
                None => s is None,
            }) && rn@.map_values(|n: String| n@) == names,
            None => res is None,
        },
{
    let super_name = match cf.get_super_class_name() {
        Some(n) => Some(n.to_owned()),
        None => None,
    };
    let ghost cp = cf.constant_pool@;
    let mut names: Vec<String> = Vec::new();
    let mut k: usize = 0;
    while k < cf.interfaces.len()
        invariant
            cf.wf(),
            cp == cf.constant_pool@,
            k <= cf.interfaces@.len(),
            forall|j: int|
                0 <= j < k ==> valid_cp_index(cp.len() as int, #[trigger] cf.interfaces@[j]) && cp_class_name(
                    cp,
                    cf.interfaces@[j] as int,
                ) is Some,
            names@.map_values(|n: String| n@) == cf.interfaces@.subrange(0, k as int).map_values(
                |i: usize| cp_class_name(cp, i as int)->Some_0,
            ),
        decreases cf.interfaces@.len() - k,
    {
        let index = cf.interfaces[k];
        if index == 0 || index >= cf.constant_pool.len() {
            return None;
        }
        let name = match cf.constant_pool.get_class_name(index) {
            Some(n) => n,
            None => return None,
        };
        let ghost before = names@;
        let owned = name.to_owned();
        let ghost pushed = owned;
        names.push(owned);
        proof {
            assert(names@ == before.push(pushed));
            assert(cf.interfaces@.subrange(0, k + 1) =~= cf.interfaces@.subrange(0, k as int).push(index));
            assert(names@.map_values(|n: String| n@) =~= before.map_values(|n: String| n@).push(name@));
            assert(cf.interfaces@.subrange(0, k + 1).map_values(|i: usize| cp_class_name(cp, i as int)->Some_0)
                =~= cf.interfaces@.subrange(0, k as int).map_values(|i: usize| cp_class_name(cp, i as int)->Some_0).push(
                cp_class_name(cp, index as int)->Some_0,
            ));
        }
        k += 1;
    }
    proof {
        assert(cf.interfaces@.subrange(0, cf.interfaces@.len() as int) =~= cf.interfaces@);
    }
    Some((super_name, names))
}

} // verus!

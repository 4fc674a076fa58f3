//! Caches that the whole machine shares: interned strings and the ids of
//! method signatures.
use vstd::prelude::*;

use crate::jvm_cache::method_signature_cache::MethodSignatureCache;
use crate::jvm_cache::string_pool::StringPool;

pub mod method_call_cache;
pub mod method_signature_cache;
pub mod string_pool;

verus! {

/// JVM-wide runtime cached information.
#[derive(Debug)]
pub struct JvmCache {
    pub string_pool: StringPool,
    pub method_signature_cache: MethodSignatureCache,
}

impl JvmCache {
    pub fn new() -> (res: Self)
        ensures
            res.string_pool.wf(),
            res.string_pool@ == Map::<Seq<char>, usize>::empty(),
            res.method_signature_cache.wf(),
            res.method_signature_cache.names() == Seq::<Seq<char>>::empty(),
            res.method_signature_cache.descriptors() == Seq::<Seq<char>>::empty(),
    {
        Self { string_pool: StringPool::new(), method_signature_cache: MethodSignatureCache::new() }
    }
}

} // verus!

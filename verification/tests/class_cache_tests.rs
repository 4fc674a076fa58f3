use std::rc::Rc;

use jvankom::class_cache::{CacheEntry, ClassCache, FieldAccessInfo, TypeInfo};
use jvankom::jvm_cache::method_call_cache::VirtualMethodCallInfo;
use jvankom::jvm_model::{DescriptorType, ObjectArrayType};

fn mock_virtual_method(parameter_list: Vec<DescriptorType>) -> VirtualMethodCallInfo {
    VirtualMethodCallInfo {
        method_name: "m".to_owned(),
        descriptor: "()V".to_owned(),
        parameter_list,
    }
}

#[test]
fn insert_at_end() {
    let mut cache = ClassCache::new();

    cache.register(
        5,
        Rc::new(CacheEntry::VirtualMethodCall(mock_virtual_method(vec![
            DescriptorType::Integer,
        ]))),
    );

    let result = cache.get_virtual_method(5);
    assert_eq!(vec![DescriptorType::Integer], result.unwrap().parameter_list);
    assert_eq!(1, cache.get_cache_hits());

    let (used, total) = cache.get_storage_efficiency();
    assert_eq!(1, used);
    assert_eq!(1, total);
}

#[test]
fn insert_at_start_extends_offset() {
    let mut cache = ClassCache::new();

    cache.register(
        10,
        Rc::new(CacheEntry::VirtualMethodCall(mock_virtual_method(vec![
            DescriptorType::Integer,
        ]))),
    );

    cache.register(
        5,
        Rc::new(CacheEntry::VirtualMethodCall(mock_virtual_method(vec![
            DescriptorType::Long,
        ]))),
    );

    let result_start = cache.get_virtual_method(5).unwrap().parameter_list.clone();
    let result_old = cache.get_virtual_method(10).unwrap().parameter_list.clone();

    assert_eq!(vec![DescriptorType::Long], result_start);
    assert_eq!(vec![DescriptorType::Integer], result_old);
    assert_eq!(2, cache.get_cache_hits());

    let (used, total) = cache.get_storage_efficiency();
    assert_eq!(2, used);
    assert_eq!(6, total);
}

#[test]
fn insert_in_middle_fills_gap() {
    let mut cache = ClassCache::new();

    cache.register(
        1,
        Rc::new(CacheEntry::VirtualMethodCall(mock_virtual_method(vec![
            DescriptorType::Byte,
        ]))),
    );

    cache.register(
        10,
        Rc::new(CacheEntry::VirtualMethodCall(mock_virtual_method(vec![
            DescriptorType::Long,
        ]))),
    );

    cache.register(
        5,
        Rc::new(CacheEntry::VirtualMethodCall(mock_virtual_method(vec![
            DescriptorType::Integer,
        ]))),
    );

    let low = cache.get_virtual_method(1).unwrap().parameter_list.clone();
    let mid = cache.get_virtual_method(5).unwrap().parameter_list.clone();
    let high = cache.get_virtual_method(10).unwrap().parameter_list.clone();

    assert_eq!(vec![DescriptorType::Byte], low);
    assert_eq!(vec![DescriptorType::Integer], mid);
    assert_eq!(vec![DescriptorType::Long], high);
    assert_eq!(3, cache.get_cache_hits());

    let (used, total) = cache.get_storage_efficiency();
    assert_eq!(3, used);
    assert_eq!(10, total);
}

#[test]
fn lookup_of_other_kind_misses_without_hit() {
    let mut cache = ClassCache::new();
    let info = TypeInfo {
        object_or_array: ObjectArrayType::Primitive(DescriptorType::Integer),
        dimension: 1,
    };
    cache.register(3, Rc::new(CacheEntry::Type(info)));
    assert!(cache.get_virtual_method(3).is_none());
    assert!(cache.get_static_field_access(3).is_none());
    assert_eq!(0, cache.get_cache_hits());
    assert_eq!(Some(info), cache.get_type(3));
    assert_eq!(1, cache.get_cache_hits());
    assert!(cache.get_type(4).is_none());
    assert!(cache.get_type(2).is_none());
}

#[test]
fn register_replaces_entry_and_keeps_others() {
    let mut cache = ClassCache::new();
    let field = FieldAccessInfo { target_class: 2, field_index: 7 };
    cache.register(8, Rc::new(CacheEntry::StringPoolRef(4)));
    cache.register(9, Rc::new(CacheEntry::NonStaticFieldAccess(field)));
    cache.register(8, Rc::new(CacheEntry::StringPoolRef(6)));
    assert_eq!(Some(6), cache.get_string_pool_ref(8));
    assert_eq!(Some(field), cache.get_non_static_field_access(9));
    assert_eq!((2, 2), cache.get_storage_efficiency());
}

//! The fields of a class: its static fields with their default values, the
//! layout of its objects' fields, and new objects with every field zero.
use vstd::prelude::*;

use crate::class_file::{ClassFile, ConstantValueV, Field, FieldAccessFlags, cp_utf8, flag_set};
use crate::class_hierarchy::ClassHierarchy;
use crate::jvm_model::{
    ClassId, DescriptorType, FieldInfo, HeapObject, JvmValue, StaticFieldInfo, default_value_of, descriptor_type_of,
    is_zero_value, lemma_default_values_are_zero, value_matches,
};
use crate::text::str_to_chars;

verus! {

/// The field is static.
pub open spec fn is_static(f: Field) -> bool {
    flag_set(f.access_flags@, FieldAccessFlags::STATIC_FLAG)
}

/// The name of field `f`.
pub open spec fn field_name(cp: Seq<ConstantValueV>, f: Field) -> Seq<char> {
    cp_utf8(cp, f.name_index as int).unwrap()
}

/// The type of field `f`, by the first character of its descriptor.
pub open spec fn field_type(cp: Seq<ConstantValueV>, f: Field) -> DescriptorType {
    descriptor_type_of(cp_utf8(cp, f.descriptor_index as int).unwrap()[0])
}

/// The field's name and descriptor are texts of the pool, the descriptor not empty.
pub open spec fn field_described(cp: Seq<ConstantValueV>, f: Field) -> bool {
    &&& cp_utf8(cp, f.name_index as int) is Some
    &&& cp_utf8(cp, f.descriptor_index as int) matches Some(d) && d.len() > 0
}

/// A static field as its name, type, value and position in the class file.
pub open spec fn static_info_view(s: StaticFieldInfo) -> (Seq<char>, DescriptorType, JvmValue, usize) {
    (s.name@, s.descriptor_type, s.value, s.field_class_file_index)
}

/// The static fields among the first `n` fields, each with the default
/// value of its type.
pub open spec fn static_infos(fields: Seq<Field>, cp: Seq<ConstantValueV>, n: int) -> Seq<
    (Seq<char>, DescriptorType, JvmValue, usize),
>
    decreases n,
{
    if n <= 0 {
        Seq::empty()
    } else {
        let prev = static_infos(fields, cp, n - 1);
        let f = fields[n - 1];
        if is_static(f) {
            prev.push(
                (field_name(cp, f), field_type(cp, f), default_value_of(field_type(cp, f)), (n - 1) as usize),
            )
        } else {
            prev
        }
    }
}

/// A non-static field as its name, declaring class, position in that
/// class's file and type.
pub open spec fn field_info_view(f: FieldInfo) -> (Seq<char>, ClassId, usize, DescriptorType) {
    (f.name@, f.class, f.field_class_file_index, f.descriptor_type)
}

/// The non-static fields among the first `n` fields of class `class`.
pub open spec fn own_field_infos(class: ClassId, fields: Seq<Field>, cp: Seq<ConstantValueV>, n: int) -> Seq<
    (Seq<char>, ClassId, usize, DescriptorType),
>
    decreases n,
{
    if n <= 0 {
        Seq::empty()
    } else {
        let prev = own_field_infos(class, fields, cp, n - 1);
        let f = fields[n - 1];
        if !is_static(f) {
            prev.push((field_name(cp, f), class, (n - 1) as usize, field_type(cp, f)))
        } else {
            prev
        }
    }
}

/// The type of a field, by the first character of its descriptor.
pub fn parse_field_descriptor(descriptor: &str) -> (res: DescriptorType)
    requires
        descriptor@.len() > 0,
    ensures
        res == descriptor_type_of(descriptor@[0]),
{
    let chars = str_to_chars(descriptor);
    DescriptorType::from_char(chars[0])
}

/// The static fields of a class, each with the default value of its type,
/// in the order the class file lists them.
pub fn determine_static_fields(class_file: &ClassFile) -> (res: Vec<StaticFieldInfo>)
    requires
        class_file.wf(),
        forall|i: int|
            0 <= i < class_file.fields@.len() && is_static(#[trigger] class_file.fields@[i]) ==> field_described(
                class_file.constant_pool@,
                class_file.fields@[i],
            ),
    ensures
        res@.map_values(|s: StaticFieldInfo| static_info_view(s)) == static_infos(
            class_file.fields@,
            class_file.constant_pool@,
            class_file.fields@.len() as int,
        ),
{
    let ghost cp = class_file.constant_pool@;
    let mut static_fields: Vec<StaticFieldInfo> = Vec::new();
    let mut index: usize = 0;
    while index < class_file.fields.len()
        invariant
            class_file.wf(),
            cp == class_file.constant_pool@,
            forall|i: int|
                0 <= i < class_file.fields@.len() && is_static(#[trigger] class_file.fields@[i]) ==> field_described(
                    cp,
                    class_file.fields@[i],
                ),
            index <= class_file.fields@.len(),
            static_fields@.map_values(|s: StaticFieldInfo| static_info_view(s)) == static_infos(
                class_file.fields@,
                cp,
                index as int,
            ),
        decreases class_file.fields@.len() - index,
    {
        let field = &class_file.fields[index];
        let ghost before = static_fields@;
        if field.access_flags.check_flag(FieldAccessFlags::STATIC_FLAG) {
            proof {
                assert(field_described(cp, class_file.fields@[index as int]));
                assert(crate::class_file::valid_cp_index(cp.len() as int, class_file.fields@[index as int].name_index));
            }
            let name = match class_file.constant_pool.get_utf8(field.name_index) {
                Some(n) => n.to_owned(),
                None => vstd::pervasive::unreached(),
            };
            let descriptor = match class_file.constant_pool.get_utf8(field.descriptor_index) {
                Some(d) => d,
                None => vstd::pervasive::unreached(),
            };
            let descriptor_type = parse_field_descriptor(descriptor);
            let value = descriptor_type.create_default_value();
            static_fields.push(StaticFieldInfo { name, descriptor_type, value, field_class_file_index: index });
            proof {
                assert(static_fields@.map_values(|s: StaticFieldInfo| static_info_view(s)) =~= before.map_values(
                    |s: StaticFieldInfo| static_info_view(s),
                ).push(static_info_view(static_fields@[index as int - (index as int - before.len())])));
            }
        }
        index += 1;
    }
    static_fields
}

/// The fields of the objects of class `class`: those of its super class
/// (when it has one) first, then its own non-static fields in the order its
/// class file lists them.
pub fn determine_non_static_field_types(
    class: ClassId,
    class_file: &ClassFile,
    super_fields: Option<Vec<FieldInfo>>,
) -> (res: Vec<FieldInfo>)
    requires
        class_file.wf(),
        forall|i: int|
            0 <= i < class_file.fields@.len() && !is_static(#[trigger] class_file.fields@[i]) ==> field_described(
                class_file.constant_pool@,
                class_file.fields@[i],
            ),
    ensures
        res@.map_values(|f: FieldInfo| field_info_view(f)) == match super_fields {
            Some(s) => s@.map_values(|f: FieldInfo| field_info_view(f)),
            None => Seq::empty(),
        } + own_field_infos(class, class_file.fields@, class_file.constant_pool@, class_file.fields@.len() as int),
{
    let ghost cp = class_file.constant_pool@;
    let mut field_infos: Vec<FieldInfo> = Vec::new();
    let mut i: usize = 0;
    while i < class_file.fields.len()
        invariant
            class_file.wf(),
            cp == class_file.constant_pool@,
            forall|j: int|
                0 <= j < class_file.fields@.len() && !is_static(#[trigger] class_file.fields@[j]) ==> field_described(
                    cp,
                    class_file.fields@[j],
                ),
            i <= class_file.fields@.len(),
            field_infos@.map_values(|f: FieldInfo| field_info_view(f)) == own_field_infos(
                class,
                class_file.fields@,
                cp,
                i as int,
            ),
        decreases class_file.fields@.len() - i,
    {
        let f = &class_file.fields[i];
        let ghost before = field_infos@;
        if !f.access_flags.check_flag(FieldAccessFlags::STATIC_FLAG) {
            proof {
                assert(field_described(cp, class_file.fields@[i as int]));
                assert(crate::class_file::valid_cp_index(cp.len() as int, class_file.fields@[i as int].name_index));
            }
            let descriptor = match class_file.constant_pool.get_utf8(f.descriptor_index) {
                Some(d) => d,
                None => vstd::pervasive::unreached(),
            };
            let field_name = match class_file.constant_pool.get_utf8(f.name_index) {
                Some(n) => n.to_owned(),
                None => vstd::pervasive::unreached(),
            };
            let field_info = FieldInfo {
                name: field_name,
                class,
                descriptor_type: parse_field_descriptor(descriptor),
                field_class_file_index: i,
            };
            field_infos.push(field_info);
            proof {
                assert(field_infos@.map_values(|f: FieldInfo| field_info_view(f)) =~= before.map_values(
                    |f: FieldInfo| field_info_view(f),
                ).push(field_info_view(field_infos@[before.len() as int])));
            }
        }
        i += 1;
    }
    match super_fields {
        Some(mut super_types) => {
            let ghost s = super_types@;
            let ghost own = field_infos@;
            super_types.append(&mut field_infos);
            proof {
                assert(super_types@.map_values(|f: FieldInfo| field_info_view(f)) =~= s.map_values(
                    |f: FieldInfo| field_info_view(f),
                ) + own.map_values(|f: FieldInfo| field_info_view(f)));
            }
            super_types
        },
        None => {
            proof {
                assert(Seq::<(Seq<char>, ClassId, usize, DescriptorType)>::empty() + field_infos@.map_values(
                    |f: FieldInfo| field_info_view(f),
                ) =~= field_infos@.map_values(|f: FieldInfo| field_info_view(f)));
            }
            field_infos
        },
    }
}

/// A new object of class `class` whose fields (laid out as `field_infos`)
/// hold the default values of their types.
pub fn initialise_object_fields(class: ClassId, field_infos: &[FieldInfo]) -> (res: HeapObject)
    ensures
        res matches HeapObject::Object { class: c, fields } && c == class && fields@ == field_infos@.map_values(
            |f: FieldInfo| default_value_of(f.descriptor_type),
        ),
        res matches HeapObject::Object { fields, .. } && fields@.len() == field_infos@.len() && forall|i: int|
            0 <= i < fields@.len() ==> is_zero_value(#[trigger] fields@[i]) && value_matches(
                fields@[i],
                field_infos@[i].descriptor_type,
            ),
{
    proof {
        assert forall|t: DescriptorType| is_zero_value(#[trigger] default_value_of(t)) && value_matches(
            default_value_of(t),
            t,
        ) by {
            lemma_default_values_are_zero(t);
        }
    }
    let mut fields: Vec<JvmValue> = Vec::new();
    let mut i: usize = 0;
    while i < field_infos.len()
        invariant
            i <= field_infos@.len(),
            fields@ == field_infos@.subrange(0, i as int).map_values(
                |f: FieldInfo| default_value_of(f.descriptor_type),
            ),
        decreases field_infos@.len() - i,
    {
        fields.push(field_infos[i].descriptor_type.create_default_value());
        i += 1;
        proof {
            assert(fields@ =~= field_infos@.subrange(0, i as int).map_values(
                |f: FieldInfo| default_value_of(f.descriptor_type),
            ));
        }
    }
    proof {
        assert(field_infos@.subrange(0, field_infos@.len() as int) =~= field_infos@);
    }
    HeapObject::Object { class, fields }
}

/// The fields of an object of class `c`: those of its super class's
/// objects, then its own non-static fields.
pub open spec fn object_field_infos(supers: Seq<Option<ClassId>>, classes: Seq<ClassFile>, c: int) -> Seq<
    (Seq<char>, ClassId, usize, DescriptorType),
>
    decreases c,
{
    let own = own_field_infos(c as usize, classes[c].fields@, classes[c].constant_pool@, classes[c].fields@.len() as int);
    match supers[c] {
        Some(s) => if 0 <= s < c {
            object_field_infos(supers, classes, s as int) + own
        } else {
            own
        },
        None => own,
    }
}

/// Every class file of `classes` is well formed and names the name and type
/// of each of its non-static fields.
pub open spec fn fields_described(classes: Seq<ClassFile>) -> bool {
    forall|c: int|
        0 <= c < classes.len() ==> (#[trigger] classes[c]).wf() && forall|i: int|
            0 <= i < classes[c].fields@.len() && !is_static(#[trigger] classes[c].fields@[i]) ==> field_described(
                classes[c].constant_pool@,
                classes[c].fields@[i],
            )
}

/// The layout of the fields of an object of class `class`: the fields of
/// its super classes' objects first, the super class's super class's
/// before the super class's, then its own.
pub fn determine_object_fields(hierarchy: &ClassHierarchy, class_files: &Vec<ClassFile>, class: ClassId) -> (res: Vec<
    FieldInfo,
>)
    requires
        hierarchy.wf(),
        class < hierarchy.supers().len(),
        class_files@.len() == hierarchy.supers().len(),
        fields_described(class_files@),
    ensures
        res@.map_values(|f: FieldInfo| field_info_view(f)) == object_field_infos(
            hierarchy.supers(),
            class_files@,
            class as int,
        ),
    decreases class,
{
    proof {
        hierarchy.lemma_loaded_before(class);
        assert(class_files@[class as int].wf());
    }
    let super_fields = match hierarchy.super_class(class) {
        Some(s) => Some(determine_object_fields(hierarchy, class_files, s)),
        None => None,
    };
    determine_non_static_field_types(class, &class_files[class], super_fields)
}


/// The object layouts remembered, per class, are those that
/// `determine_object_fields` works out.
pub open spec fn layouts_known(
    layouts: Seq<Option<Vec<FieldInfo>>>,
    supers: Seq<Option<ClassId>>,
    classes: Seq<ClassFile>,
) -> bool {
    forall|c: int|
        0 <= c < layouts.len() && #[trigger] layouts[c] is Some ==> layouts[c]->Some_0@.map_values(
            |f: FieldInfo| field_info_view(f),
        ) == object_field_infos(supers, classes, c)
}

/// A copy of a list of field descriptions.
fn copy_field_infos(v: &Vec<FieldInfo>) -> (res: Vec<FieldInfo>)
    ensures
        res@.map_values(|f: FieldInfo| field_info_view(f)) == v@.map_values(|f: FieldInfo| field_info_view(f)),
{
    let mut res: Vec<FieldInfo> = Vec::new();
    let mut i: usize = 0;
    while i < v.len()
        invariant
            i <= v@.len(),
            res@.map_values(|f: FieldInfo| field_info_view(f)) == v@.subrange(0, i as int).map_values(
                |f: FieldInfo| field_info_view(f),
            ),
        decreases v@.len() - i,
    {
        let f = &v[i];
        let copy = FieldInfo {
            name: f.name.clone(),
            class: f.class,
            field_class_file_index: f.field_class_file_index,
            descriptor_type: f.descriptor_type,
        };
        let ghost before = res@;
        proof {
            assert(field_info_view(copy) == field_info_view(v@[i as int]));
        }
        res.push(copy);
        proof {
            assert(res@ == before.push(copy));
            assert(v@.subrange(0, i + 1) =~= v@.subrange(0, i as int).push(v@[i as int]));
            assert(res@.map_values(|f: FieldInfo| field_info_view(f)) =~= before.map_values(
                |f: FieldInfo| field_info_view(f),
            ).push(field_info_view(copy)));
            assert(v@.subrange(0, i + 1).map_values(|f: FieldInfo| field_info_view(f)) =~= v@.subrange(
                0,
                i as int,
            ).map_values(|f: FieldInfo| field_info_view(f)).push(field_info_view(v@[i as int])));
        }
        i += 1;
    }
    proof {
        assert(v@.subrange(0, v@.len() as int) =~= v@);
    }
    res
}

/// The layout of the fields of an object of class `class`: the one
/// remembered in `layouts` where there is one, else the one that
/// `determine_object_fields` works out, which is then remembered.
pub fn cached_object_fields(
    layouts: &mut Vec<Option<Vec<FieldInfo>>>,
    hierarchy: &ClassHierarchy,
    class_files: &Vec<ClassFile>,
    class: ClassId,
) -> (res: Vec<FieldInfo>)
    requires
        hierarchy.wf(),
        class < hierarchy.supers().len(),
        class_files@.len() == hierarchy.supers().len(),
        old(layouts)@.len() == class_files@.len(),
        fields_described(class_files@),
    ensures
        final(layouts)@.len() == old(layouts)@.len(),
        match old(layouts)@[class as int] {
            Some(w) => res@.map_values(|f: FieldInfo| field_info_view(f)) == w@.map_values(
                |f: FieldInfo| field_info_view(f),
            ) && final(layouts)@ == old(layouts)@,
            None => {
                &&& res@.map_values(|f: FieldInfo| field_info_view(f)) == object_field_infos(
                    hierarchy.supers(),
                    class_files@,
                    class as int,
                )
                &&& final(layouts)@[class as int] matches Some(w) && w@.map_values(|f: FieldInfo| field_info_view(f))
                    == res@.map_values(|f: FieldInfo| field_info_view(f))
                &&& forall|c: int| 0 <= c < old(layouts)@.len() && c != class ==> #[trigger] final(layouts)@[c] == old(
                    layouts,
                )@[c]
            },
        },
        layouts_known(old(layouts)@, hierarchy.supers(), class_files@) ==> layouts_known(
            final(layouts)@,
            hierarchy.supers(),
            class_files@,
        ),
{
    if let Some(known) = &layouts[class] {
        return copy_field_infos(known);
    }
    let fields = determine_object_fields(hierarchy, class_files, class);
    let kept = copy_field_infos(&fields);
    let ghost before = layouts@;
    layouts.set(class, Some(kept));
    proof {
        if layouts_known(before, hierarchy.supers(), class_files@) {
            assert forall|c: int| 0 <= c < layouts@.len() && #[trigger] layouts@[c] is Some implies layouts@[c]->Some_0@.map_values(
                |f: FieldInfo| field_info_view(f),
            ) == object_field_infos(hierarchy.supers(), class_files@, c) by {
                if c != class {
                    assert(layouts@[c] == before[c]);
                }
            }
        }
    }
    fields
}

} // verus!

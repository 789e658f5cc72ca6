//! Which descriptions code is for.

use crate::codegen::gen::{alike, any_sub, array_context, array_elements, array_limits};
use crate::codegen::gen::{array_object, element_error, element_guard, element_inits};
use crate::codegen::gen::{element_limits, empty_output, object_output, objects_output, present};
use crate::codegen::gen::{record_subs, sub_context, sub_table, uniform_limits, OutputSpec};
use crate::codegen::model::{OdObject, OdSubObject};
use crate::codegen::values::{init_text, int_init, pdo_variant, scalar_of, sdo_rights, ScalarSpec};
use crate::laws::description::{grants, law_sdo_rights_agree_with_the_description};
use crate::laws::entries::{configured_value, law_limits_are_checked_as_described};
use crate::laws::entries::{law_sound_sub_objects_are_generated, limit_is_sound};
use crate::laws::objects::{array_place, lemma_array_place};
use crate::number::unsigned_value;
use vstd::prelude::*;

verus! {

/// Whether a sub-object can be generated; that does not depend on what was
/// generated before.
pub open spec fn sub_is_sound(index: u16, sub: u8, obj: OdObject, sub_obj: OdSubObject) -> bool {
    let ctx = sub_context(index, sub, obj);
    let kind = sub_obj.data_type@;
    let init = int_init(configured_value(sub_obj), ctx);
    &&& sdo_rights(sub_obj.sdo@, ctx) is Ok
    &&& pdo_variant(sub_obj.pdo@, ctx) is Ok
    &&& {
        ||| kind == "DOMAIN"@
        ||| kind == "VISIBLE_STRING"@
        ||| kind == "OCTET_STRING"@
        ||| {
            &&& scalar_of(kind) is Some
            &&& init is Ok
            &&& init_text(init->Ok_0, scalar_of(kind)->0, ctx) is Ok
            &&& grants(sub_obj.sdo@, 'W') ==> limit_is_sound(
                sub_obj.low_limit@,
                scalar_of(kind)->0,
                false,
                ctx,
            ) && limit_is_sound(sub_obj.high_limit@, scalar_of(kind)->0, false, ctx)
        }
    }
}

/// A RECORD object is generated exactly if each of its sub-objects can be.
pub proof fn law_records_of_sound_sub_objects_are_generated(
    out: OutputSpec,
    index: u16,
    obj: OdObject,
    table: Seq<Option<OdSubObject>>,
    n: nat,
)
    requires
        n <= 256,
    ensures
        record_subs(out, index, obj, table, n) is Ok <==> forall|sub: int|
            0 <= sub < n && (#[trigger] table[sub]) is Some ==> sub_is_sound(
                index,
                sub as u8,
                obj,
                table[sub]->0,
            ),
    decreases n,
{
    if n > 0 {
        law_records_of_sound_sub_objects_are_generated(out, index, obj, table, (n - 1) as nat);
        if record_subs(out, index, obj, table, (n - 1) as nat) is Ok && table[n - 1] is Some {
            law_sound_sub_objects_are_generated(
                record_subs(out, index, obj, table, (n - 1) as nat)->Ok_0,
                index,
                (n - 1) as u8,
                obj,
                table[n - 1]->0,
            );
        }
    }
}

/// Whether the elements of an array can be generated: each has a value of the
/// type, and limits of the type where the elements are writable.
pub open spec fn element_is_sound(
    element: OdSubObject,
    scalar: ScalarSpec,
    writable: bool,
    ctx: Seq<char>,
) -> bool {
    &&& int_init(configured_value(element), ctx) matches Ok(init) && init_text(
        init,
        scalar,
        ctx,
    ) is Ok
    &&& writable ==> limit_is_sound(element.low_limit@, scalar, true, ctx) && limit_is_sound(
        element.high_limit@,
        scalar,
        true,
        ctx,
    )
}

/// The elements have initializers exactly if their values fit.
proof fn lemma_inits(table: Seq<Option<OdSubObject>>, n: nat, scalar: ScalarSpec, ctx: Seq<char>)
    ensures
        element_inits(table, n, scalar, ctx) is Ok <==> forall|sub: int|
            1 <= sub <= n ==> element_is_sound((#[trigger] table[sub])->0, scalar, false, ctx),
    decreases n,
{
    if n > 0 {
        lemma_inits(table, (n - 1) as nat, scalar, ctx);
        assert(table[n as int] == table[n as int]);
    }
}

/// The elements have limit checks exactly if their limits can be checked.
proof fn lemma_limits(table: Seq<Option<OdSubObject>>, n: nat, scalar: ScalarSpec, ctx: Seq<char>)
    ensures
        element_limits(table, n, scalar, ctx) is Ok <==> forall|sub: int|
            1 <= sub <= n ==> limit_is_sound(
                (#[trigger] table[sub])->0.low_limit@,
                scalar,
                true,
                ctx,
            ) && limit_is_sound(table[sub]->0.high_limit@, scalar, true, ctx),
    decreases n,
{
    if n > 0 {
        lemma_limits(table, (n - 1) as nat, scalar, ctx);
        law_limits_are_checked_as_described(
            table[n as int]->0,
            element_guard(n),
            scalar,
            true,
            ctx,
        );
    }
}

/// The same for all limits of an array, common or not.
proof fn lemma_array_limits(
    table: Seq<Option<OdSubObject>>,
    n: nat,
    scalar: ScalarSpec,
    ctx: Seq<char>,
)
    requires
        n > 0,
    ensures
        array_limits(table, n, scalar, ctx) is Ok <==> forall|sub: int|
            1 <= sub <= n ==> limit_is_sound(
                (#[trigger] table[sub])->0.low_limit@,
                scalar,
                true,
                ctx,
            ) && limit_is_sound(table[sub]->0.high_limit@, scalar, true, ctx),
{
    reveal_strlit("");
    assert(""@ =~= Seq::<char>::empty());
    lemma_limits(table, n, scalar, ctx);
    law_limits_are_checked_as_described(table[1]->0, ""@, scalar, true, ctx);
    if uniform_limits(table, n) {
        assert(table[1] == table[1]);
        assert forall|sub: int| 1 <= sub <= n implies (#[trigger] table[sub])->0.low_limit@
            == table[1]->0.low_limit@ && table[sub]->0.high_limit@ == table[1]->0.high_limit@ by {}
    }
}

/// The elements of an array are generated exactly if their type is a scalar
/// one, their access texts name rights and each of them is sound.
pub proof fn law_sound_elements_are_generated(
    out: OutputSpec,
    index: u16,
    obj: OdObject,
    table: Seq<Option<OdSubObject>>,
    first: OdSubObject,
    n: nat,
    ctx: Seq<char>,
)
    requires
        n > 0,
    ensures
        array_elements(out, index, obj, table, first, n, ctx) is Ok <==> {
            &&& scalar_of(first.data_type@) is Some
            &&& sdo_rights(first.sdo@, ctx) is Ok
            &&& pdo_variant(first.pdo@, ctx) is Ok
            &&& forall|sub: int|
                1 <= sub <= n ==> element_is_sound(
                    (#[trigger] table[sub])->0,
                    scalar_of(first.data_type@)->0,
                    grants(first.sdo@, 'W'),
                    ctx,
                )
        },
{
    law_sdo_rights_agree_with_the_description(first.sdo@, ctx);
    if let Some(scalar) = scalar_of(first.data_type@) {
        lemma_inits(table, n, scalar, ctx);
        lemma_array_limits(table, n, scalar, ctx);
        if array_elements(out, index, obj, table, first, n, ctx) is Ok {
            assert forall|sub: int| 1 <= sub <= n implies element_is_sound(
                (#[trigger] table[sub])->0,
                scalar,
                grants(first.sdo@, 'W'),
                ctx,
            ) by {
                assert(element_is_sound(table[sub]->0, scalar, false, ctx));
            }
        }
    }
}

/// Elements that exist and are alike have no error.
proof fn lemma_no_element_error(
    table: Seq<Option<OdSubObject>>,
    first: OdSubObject,
    n: nat,
    from: nat,
    ctx: Seq<char>,
)
    requires
        n < 256,
        forall|sub: int|
            from <= sub <= n ==> (#[trigger] table[sub]) is Some && alike(table[sub]->0, first),
    ensures
        element_error(table, first, n, from, ctx) is None,
    decreases 256 - from,
{
    if from <= n {
        assert(table[from as int] is Some);
        lemma_no_element_error(table, first, n, from + 1, ctx);
    }
}

/// The number of sub-indices that exist, where they are the first ones.
proof fn lemma_present_exact(table: Seq<Option<OdSubObject>>, n: nat, m: nat)
    requires
        n <= m,
        forall|sub: int| 0 <= sub < n ==> (#[trigger] table[sub]) is Some,
        forall|sub: int| n <= sub < m ==> (#[trigger] table[sub]) is None,
    ensures
        present(table, m) == n,
    decreases m,
{
    if m > 0 {
        if m > n {
            lemma_present_exact(table, n, (m - 1) as nat);
        } else {
            lemma_present_exact(table, (n - 1) as nat, (m - 1) as nat);
        }
    }
}

/// An ARRAY object with sub-object 0 and `n` elements from 1 on, which share
/// type and access, and nothing else, is generated if these can be.
pub proof fn law_sound_arrays_are_generated(
    out: OutputSpec,
    index: u16,
    obj: OdObject,
    table: Seq<Option<OdSubObject>>,
    n: nat,
)
    requires
        n < 256,
        table.len() == 256,
        forall|sub: int| 0 <= sub <= n ==> (#[trigger] table[sub]) is Some,
        forall|sub: int| n < sub < 256 ==> (#[trigger] table[sub]) is None,
        forall|sub: int|
            1 <= sub <= n ==> (#[trigger] table[sub])->0.data_type@ == table[1]->0.data_type@
                && table[sub]->0.sdo@ == table[1]->0.sdo@ && table[sub]->0.pdo@
                == table[1]->0.pdo@,
        sub_is_sound(index, 0, obj, table[0]->0),
        n > 0 ==> {
            let first = table[1]->0;
            let ctx = array_place(index, obj);
            &&& scalar_of(first.data_type@) is Some
            &&& sdo_rights(first.sdo@, ctx) is Ok
            &&& pdo_variant(first.pdo@, ctx) is Ok
            &&& forall|sub: int|
                1 <= sub <= n ==> element_is_sound(
                    (#[trigger] table[sub])->0,
                    scalar_of(first.data_type@)->0,
                    grants(first.sdo@, 'W'),
                    ctx,
                )
        },
    ensures
        array_object(out, index, obj, table) is Ok,
{
    lemma_array_place(index, obj);
    lemma_present_exact(table, n + 1, 256);
    law_sound_sub_objects_are_generated(out, index, 0, obj, table[0]->0);
    let mid = any_sub(out, index, 0, obj, table[0]->0)->Ok_0;
    if n > 0 {
        let ctx = array_place(index, obj);
        lemma_no_element_error(table, table[1]->0, n, 1, ctx);
        law_sound_elements_are_generated(mid, index, obj, table, table[1]->0, n, ctx);
    }
}

/// Whether an object is generated does not depend on what was generated
/// before it.
proof fn lemma_object_is_independent(
    a: OutputSpec,
    b: OutputSpec,
    index: u16,
    key: Seq<char>,
    obj: OdObject,
    table: Seq<Option<OdSubObject>>,
)
    ensures
        object_output(a, index, key, obj, table) is Ok <==> object_output(
            b,
            index,
            key,
            obj,
            table,
        ) is Ok,
{
    reveal(object_output);
    if table[0] is Some {
        law_sound_sub_objects_are_generated(a, index, 0, obj, table[0]->0);
        law_sound_sub_objects_are_generated(b, index, 0, obj, table[0]->0);
    }
    law_records_of_sound_sub_objects_are_generated(a, index, obj, table, 256);
    law_records_of_sound_sub_objects_are_generated(b, index, obj, table, 256);
    let n = (present(table, 256) - 1) as nat;
    if n > 0 && table[0] is Some && table[1] is Some && any_sub(a, index, 0, obj, table[0]->0)
        is Ok {
        let ctx = array_context(index, obj);
        let x = any_sub(a, index, 0, obj, table[0]->0)->Ok_0;
        let y = any_sub(b, index, 0, obj, table[0]->0)->Ok_0;
        law_sound_elements_are_generated(x, index, obj, table, table[1]->0, n, ctx);
        law_sound_elements_are_generated(y, index, obj, table, table[1]->0, n, ctx);
    }
}

/// Whether an object of a device can be generated: it is disabled, or its key
/// and those of its sub-objects are numbers and its own code can be.
pub open spec fn object_is_sound(entry: (String, OdObject)) -> bool {
    let index = unsigned_value(entry.0@, 16, 0xFFFF);
    let table = sub_table(entry.0@, entry.1.sub_objects@);
    entry.1.disabled || {
        &&& index is Some
        &&& table is Ok
        &&& object_output(
            empty_output(),
            index->0 as u16,
            entry.0@,
            entry.1,
            table->Ok_0,
        ) is Ok
    }
}

/// The objects of a device are generated exactly if each of them can be, in
/// whatever company.
pub proof fn law_devices_of_sound_objects_are_generated(objects: Seq<(String, OdObject)>)
    ensures
        objects_output(objects) is Ok <==> forall|i: int|
            0 <= i < objects.len() ==> object_is_sound(#[trigger] objects[i]),
    decreases objects.len(),
{
    if objects.len() > 0 {
        let rest = objects.drop_last();
        law_devices_of_sound_objects_are_generated(rest);
        assert forall|i: int| 0 <= i < rest.len() implies #[trigger] rest[i] == objects[i] by {}
        let last = objects[objects.len() - 1];
        assert(objects.last() == last);
        let index = unsigned_value(last.0@, 16, 0xFFFF);
        let table = sub_table(last.0@, last.1.sub_objects@);
        if objects_output(rest) is Ok && index is Some && table is Ok {
            lemma_object_is_independent(
                objects_output(rest)->Ok_0.0,
                empty_output(),
                index->0 as u16,
                last.0@,
                last.1,
                table->Ok_0,
            );
        }
        if objects_output(rest) is Ok {
            assert forall|i: int| 0 <= i < rest.len() implies object_is_sound(
                #[trigger] objects[i],
            ) by {
                assert(object_is_sound(rest[i]));
            }
            assert(objects_output(objects) is Ok <==> object_is_sound(last));
        } else {
            let i = choose|i: int| 0 <= i < rest.len() && !object_is_sound(#[trigger] rest[i]);
            assert(!object_is_sound(objects[i]));
            assert(objects_output(objects) is Err);
        }
    }
}

} // verus!

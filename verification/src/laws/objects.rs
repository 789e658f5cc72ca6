//! Generated objects: every described object has its code, and no other.

use crate::codegen::counts::counted;
use crate::codegen::gen::{alike, all_same, any_sub, array_context, array_doc, array_elements};
use crate::codegen::gen::{array_init, array_limits, array_object, element_error, element_guard};
use crate::codegen::gen::{element_inits, element_limits, empty_output, joined, object_output};
use crate::codegen::gen::{objects_output, present, record_subs, sub_context, sub_doc, sub_source};
use crate::codegen::gen::{sub_table, uniform_limits, unknown_sub_arm, with_arms, FieldSpec};
use crate::codegen::gen::OutputSpec;
use crate::codegen::model::{OdObject, OdSubObject};
use crate::codegen::names::{count_longer, first_free, lemma_count_longer, sanitized, unique_name};
use crate::codegen::values::{access_label, init_text, int_init, pdo_variant, scalar_of};
use crate::codegen::values::{sdo_rights, ScalarSpec};
use crate::laws::description::{grants, law_sdo_rights_agree_with_the_description};
use crate::laws::entries::{configured_value, elements_head, grew_by};
use crate::laws::entries::{law_limits_are_checked_as_described, law_patterns_name_the_object};
use crate::laws::entries::{lemma_refusal_arms, limit_lines_of, metadata_arm};
use crate::number::unsigned_value;
use crate::text::{decimal, hex};
use vstd::prelude::*;

verus! {

/// Whether the key of a sub-object denotes the sub-index `sub`, in
/// hexadecimal.
pub open spec fn denotes(entry: (String, OdSubObject), sub: int) -> bool {
    unsigned_value(entry.0@, 16, 0xFF) == Some(sub as nat)
}

/// A sub-index belongs to the last sub-object whose key denotes it, at the
/// position `at`, and to none if no key does.
pub proof fn law_sub_objects_are_found_by_their_key(
    index_text: Seq<char>,
    subs: Seq<(String, OdSubObject)>,
    sub: int,
) -> (at: int)
    requires
        0 <= sub < 256,
        sub_table(index_text, subs) is Ok,
    ensures
        ({
            let table = sub_table(index_text, subs)->Ok_0;
            &&& table.len() == 256
            &&& forall|i: int| at < i < subs.len() && 0 <= i ==> !denotes(#[trigger] subs[i], sub)
            &&& if 0 <= at < subs.len() {
                denotes(subs[at], sub) && table[sub] == Some(subs[at].1)
            } else {
                at < 0 && table[sub] is None
            }
        }),
    decreases subs.len(),
{
    if subs.len() == 0 {
        -1
    } else {
        let rest = subs.drop_last();
        let before = law_sub_objects_are_found_by_their_key(index_text, rest, sub);
        let own = unsigned_value(subs.last().0@, 16, 0xFF)->0;
        assert(own < 256);
        let at = if own == sub {
            subs.len() - 1
        } else {
            before
        };
        assert forall|i: int| at < i < subs.len() && 0 <= i implies !denotes(
            #[trigger] subs[i],
            sub,
        ) by {
            if i < rest.len() {
                assert(rest[i] == subs[i]);
            }
        }
        at
    }
}

/// The sub-objects of an object are refused exactly if one of their keys is no
/// hexadecimal number up to FF.
pub proof fn law_sub_object_keys_are_numbers(
    index_text: Seq<char>,
    subs: Seq<(String, OdSubObject)>,
    entry: (String, OdSubObject),
)
    ensures
        sub_table(index_text, Seq::empty()) is Ok,
        sub_table(index_text, subs.push(entry)) is Ok <==> sub_table(index_text, subs) is Ok
            && unsigned_value(entry.0@, 16, 0xFF) is Some,
{
    assert(subs.push(entry).drop_last() =~= subs);
}

/// The code of a RECORD object is that of its sub-objects, one after the
/// other in ascending order of the sub-index, each with its own sub-index:
/// the outputs before and after each of them.
pub proof fn law_records_have_all_their_sub_objects(
    out: OutputSpec,
    index: u16,
    obj: OdObject,
    table: Seq<Option<OdSubObject>>,
    n: nat,
    after: OutputSpec,
) -> (chain: Seq<OutputSpec>)
    requires
        n <= 256,
        record_subs(out, index, obj, table, n) == Ok::<_, Seq<char>>(after),
    ensures
        chain.len() == n + 1,
        chain[0] == out,
        chain[n as int] == after,
        forall|sub: int|
            0 <= sub < n ==> match #[trigger] table[sub] {
                Some(sub_obj) => any_sub(chain[sub], index, sub as u8, obj, sub_obj) == Ok::<
                    _,
                    Seq<char>,
                >(chain[sub + 1]),
                None => chain[sub + 1] == chain[sub],
            },
    decreases n,
{
    if n == 0 {
        seq![out]
    } else {
        let mid = record_subs(out, index, obj, table, (n - 1) as nat)->Ok_0;
        let before = law_records_have_all_their_sub_objects(
            out,
            index,
            obj,
            table,
            (n - 1) as nat,
            mid,
        );
        before.push(after)
    }
}

/// The code of a device is that of its enabled objects, one after the other,
/// each under the index that its key denotes in hexadecimal and followed by
/// an arm that refuses its other sub-indices; disabled objects leave no
/// trace. An object with a label is counted.
pub proof fn law_all_enabled_objects_are_generated(
    objects: Seq<(String, OdObject)>,
    after: OutputSpec,
    counts: Seq<(Seq<char>, nat)>,
) -> (chain: Seq<(OutputSpec, Seq<(Seq<char>, nat)>)>)
    requires
        objects_output(objects) == Ok::<_, Seq<char>>((after, counts)),
    ensures
        chain.len() == objects.len() + 1,
        chain[0] == (empty_output(), Seq::<(Seq<char>, nat)>::empty()),
        chain[objects.len() as int] == (after, counts),
        forall|i: int|
            0 <= i < objects.len() ==> {
                let key = (#[trigger] objects[i]).0@;
                let obj = objects[i].1;
                let index = unsigned_value(key, 16, 0xFFFF);
                let table = sub_table(key, obj.sub_objects@);
                if obj.disabled {
                    chain[i + 1] == chain[i]
                } else {
                    &&& index is Some
                    &&& table is Ok
                    &&& object_output(
                        chain[i].0,
                        index->0 as u16,
                        key,
                        obj,
                        table->Ok_0,
                    ) matches Ok(own) && {
                        &&& chain[i + 1].0 == with_arms(
                            own,
                            unknown_sub_arm(index->0 as u16),
                            unknown_sub_arm(index->0 as u16),
                            unknown_sub_arm(index->0 as u16),
                        )
                        &&& obj.count_label@.len() == 0 ==> chain[i + 1].1 == chain[i].1
                        &&& obj.count_label@.len() > 0 ==> chain[i + 1].1 == counted(
                            chain[i].1,
                            obj.count_label@,
                        )
                    }
                }
            },
    decreases objects.len(),
{
    if objects.len() == 0 {
        seq![(after, counts)]
    } else {
        let rest = objects.drop_last();
        let mid = objects_output(rest)->Ok_0;
        let before = law_all_enabled_objects_are_generated(rest, mid.0, mid.1);
        let chain = before.push((after, counts));
        assert forall|i: int| 0 <= i < rest.len() implies #[trigger] objects[i] == rest[i] by {}
        chain
    }
}

/// The kind of an object decides on its code: a VAR has sub-object 0 alone, a
/// RECORD all sub-objects, an ARRAY a counter and its elements; there is no
/// other kind.
pub proof fn law_object_types_decide_on_the_code(
    out: OutputSpec,
    index: u16,
    key: Seq<char>,
    obj: OdObject,
    table: Seq<Option<OdSubObject>>,
)
    requires
        object_output(out, index, key, obj, table) is Ok,
    ensures
        obj.object_type@ == "OBJECT_TYPE_VAR"@ || obj.object_type@ == "OBJECT_TYPE_ARRAY"@
            || obj.object_type@ == "OBJECT_TYPE_RECORD"@,
        obj.object_type@ == "OBJECT_TYPE_VAR"@ ==> table[0] is Some && object_output(
            out,
            index,
            key,
            obj,
            table,
        ) == any_sub(out, index, 0, obj, table[0]->0),
        obj.object_type@ == "OBJECT_TYPE_ARRAY"@ ==> object_output(out, index, key, obj, table)
            == array_object(out, index, obj, table),
        obj.object_type@ == "OBJECT_TYPE_RECORD"@ ==> object_output(out, index, key, obj, table)
            == record_subs(out, index, obj, table, 256),
{
    reveal(object_output);
    reveal_strlit("OBJECT_TYPE_VAR");
    reveal_strlit("OBJECT_TYPE_ARRAY");
    reveal_strlit("OBJECT_TYPE_RECORD");
    assert("OBJECT_TYPE_VAR"@[12] == 'V' && "OBJECT_TYPE_ARRAY"@[12] == 'A'
        && "OBJECT_TYPE_RECORD"@[12] == 'R');
}

/// The elements that have no error exist and are alike.
pub proof fn lemma_elements(
    table: Seq<Option<OdSubObject>>,
    first: OdSubObject,
    n: nat,
    from: nat,
    ctx: Seq<char>,
)
    requires
        element_error(table, first, n, from, ctx) is None,
        from <= 256,
    ensures
        n < 256 || from > n,
        forall|sub: int|
            from <= sub <= n ==> (#[trigger] table[sub]) is Some && alike(table[sub]->0, first),
    decreases 257 - from,
{
    if from <= n {
        lemma_elements(table, first, n, from + 1, ctx);
    }
}

/// Sub-indices that are all there are counted.
pub proof fn lemma_present_bound(table: Seq<Option<OdSubObject>>, n: nat, m: nat)
    requires
        n <= m <= 256,
        forall|sub: int| 0 <= sub < n ==> (#[trigger] table[sub]) is Some,
    ensures
        present(table, m) >= n,
        present(table, n) == n,
        present(table, m) == n ==> forall|sub: int| n <= sub < m ==> (#[trigger] table[sub]) is None,
    decreases m,
{
    if m > n {
        lemma_present_bound(table, n, (m - 1) as nat);
    } else if m > 0 {
        lemma_present_bound(table, (m - 1) as nat, (m - 1) as nat);
    }
}

/// The initializers of the elements.
proof fn lemma_element_inits(
    table: Seq<Option<OdSubObject>>,
    n: nat,
    scalar: ScalarSpec,
    ctx: Seq<char>,
)
    requires
        element_inits(table, n, scalar, ctx) is Ok,
    ensures
        element_inits(table, n, scalar, ctx)->Ok_0.0.len() == n,
        forall|sub: int|
            1 <= sub <= n ==> element_starts_as(
                (#[trigger] table[sub])->0,
                scalar,
                ctx,
                element_inits(table, n, scalar, ctx)->Ok_0.0[sub - 1],
            ),
        element_inits(table, n, scalar, ctx)->Ok_0.1 <==> exists|sub: int|
            1 <= sub <= n && is_node_relative((#[trigger] table[sub])->0, ctx),
    decreases n,
{
    if n > 0 {
        lemma_element_inits(table, (n - 1) as nat, scalar, ctx);
        let before = element_inits(table, (n - 1) as nat, scalar, ctx)->Ok_0.0;
        let list = element_inits(table, n, scalar, ctx)->Ok_0.0;
        assert forall|sub: int| 1 <= sub <= n implies element_starts_as(
            (#[trigger] table[sub])->0,
            scalar,
            ctx,
            list[sub - 1],
        ) by {
            if sub < n {
                assert(list[sub - 1] == before[sub - 1]);
            }
        }
        if is_node_relative(table[n as int]->0, ctx) {
            assert(element_inits(table, n, scalar, ctx)->Ok_0.1);
        }
        if element_inits(table, (n - 1) as nat, scalar, ctx)->Ok_0.1 {
            let sub = choose|sub: int|
                1 <= sub <= n - 1 && is_node_relative((#[trigger] table[sub])->0, ctx);
            assert(1 <= sub <= n);
        }
    }
}

/// Whether the configured value of an element is relative to the node id.
pub open spec fn is_node_relative(element: OdSubObject, ctx: Seq<char>) -> bool {
    int_init(configured_value(element), ctx) matches Ok(init) && init.plus_node_id
}

/// Whether `text` is the initializer of the configured value of an element.
pub open spec fn element_starts_as(
    element: OdSubObject,
    scalar: ScalarSpec,
    ctx: Seq<char>,
    text: Seq<char>,
) -> bool {
    int_init(configured_value(element), ctx) matches Ok(init) && init_text(init, scalar, ctx)
        == Ok::<_, Seq<char>>(text)
}

/// The text of an array initializer: one expression for all elements where
/// they agree, else all of them in order.
pub proof fn law_array_initializers_list_the_elements(list: Seq<Seq<char>>, e: Seq<char>, k: nat)
    requires
        list.len() > 0,
        k > 0,
    ensures
        array_init(Seq::new(k, |i: int| e)) == "["@ + e + "; "@ + decimal(k) + "]"@,
        (exists|i: int| 0 <= i < list.len() && #[trigger] list[i] != list[0]) ==> array_init(list)
            == "["@ + joined(list) + "]"@,
        joined(seq![e]) == e,
        joined(list.push(e)) == joined(list) + ", "@ + e,
{
    let same = Seq::new(k, |i: int| e);
    assert(all_same(same));
    assert(list.push(e).drop_last() =~= list);
}

/// Where errors of an array are reported.
pub open spec fn array_place(index: u16, obj: OdObject) -> Seq<char> {
    "array object 0x"@ + hex(index as nat, 4, true) + " ("@ + obj.name@ + ")"@
}

pub proof fn lemma_array_place(index: u16, obj: OdObject)
    ensures
        array_context(index, obj) == array_place(index, obj),
{
    reveal_strlit("array object ");
    reveal_strlit("0x");
    reveal_strlit("array object 0x");
    assert("array object 0x"@ =~= "array object "@ + "0x"@);
    assert(array_context(index, obj) =~= array_place(index, obj));
}

/// An ARRAY object has its sub-object 0 and the sub-objects from 1 to their
/// number `n`, which share type and access, and no other; its code is that of
/// sub-object 0, followed by that of its elements.
pub proof fn law_arrays_have_contiguous_elements(
    out: OutputSpec,
    index: u16,
    obj: OdObject,
    table: Seq<Option<OdSubObject>>,
    after: OutputSpec,
) -> (r: (OutputSpec, nat))
    requires
        table.len() == 256,
        array_object(out, index, obj, table) == Ok::<_, Seq<char>>(after),
    ensures
        ({
            let (mid, n) = r;
            let first = table[1]->0;
            &&& n < 256
            &&& forall|sub: int| 0 <= sub <= n ==> (#[trigger] table[sub]) is Some
            &&& forall|sub: int| n < sub < 256 ==> (#[trigger] table[sub]) is None
            &&& any_sub(out, index, 0, obj, table[0]->0) == Ok::<_, Seq<char>>(mid)
            &&& n == 0 ==> after == mid
            &&& n > 0 ==> array_elements(
                mid,
                index,
                obj,
                table,
                first,
                n,
                array_place(index, obj),
            ) == Ok::<_, Seq<char>>(after)
            &&& forall|sub: int|
                1 <= sub <= n ==> (#[trigger] table[sub])->0.data_type@ == first.data_type@
                    && table[sub]->0.sdo@ == first.sdo@ && table[sub]->0.pdo@ == first.pdo@
        }),
{
    lemma_array_place(index, obj);
    let mid = any_sub(out, index, 0, obj, table[0]->0)->Ok_0;
    let n = (present(table, 256) - 1) as nat;
    lemma_present_bound(table, 1, 256);
    if n > 0 {
        lemma_elements(table, table[1]->0, n, 1, array_context(index, obj));
        lemma_present_bound(table, n + 1, 256);
    }
    (mid, n)
}

/// The code of the `n` elements of an array: one field with as many elements,
/// each with its own configured value. The metadata and the two accesses cover
/// exactly the sub-indices from 1 to `n`, and sub-index `s` is element `s - 1`
/// of that very field.
pub proof fn law_array_elements_follow_the_description(
    out: OutputSpec,
    index: u16,
    obj: OdObject,
    table: Seq<Option<OdSubObject>>,
    first: OdSubObject,
    n: nat,
    ctx: Seq<char>,
    after: OutputSpec,
) -> (r: (FieldSpec, Seq<Seq<char>>))
    requires
        array_elements(out, index, obj, table, first, n, ctx) == Ok::<_, Seq<char>>(after),
    ensures
        ({
            let (field, inits) = r;
            let rights = sdo_rights(first.sdo@, ctx)->Ok_0;
            let scalar = scalar_of(first.data_type@)->0;
            let element = field.name + "[(s - 1) as usize]"@;
            &&& scalar_of(first.data_type@) is Some
            &&& sdo_rights(first.sdo@, ctx) is Ok
            &&& pdo_variant(first.pdo@, ctx) is Ok
            &&& inits.len() == n
            &&& forall|sub: int|
                1 <= sub <= n ==> element_starts_as(
                    (#[trigger] table[sub])->0,
                    scalar,
                    ctx,
                    inits[sub - 1],
                )
            &&& field.type_decl == "["@ + scalar.rust + "; "@ + decimal(n) + "]"@
            &&& field.init == array_init(inits)
            &&& after.uses_node_id == (out.uses_node_id || exists|sub: int|
                1 <= sub <= n && is_node_relative((#[trigger] table[sub])->0, ctx))
            &&& grants(first.sdo@, 'W') ==> array_limits(table, n, scalar, ctx) is Ok
            &&& grew_by(
                out,
                after,
                field,
                metadata_arm(
                    elements_head(index, n, false),
                    scalar.data_type,
                    rights.variant,
                    pdo_variant(first.pdo@, ctx)->Ok_0,
                    decimal(scalar.size),
                ),
                if grants(first.sdo@, 'R') {
                    elements_head(index, n, true) + " => od::read_bytes(buf, &self."@ + element
                        + ".to_le_bytes()),"@
                } else {
                    elements_head(index, n, false) + " => Err(OdError::WriteOnly),"@
                },
                if grants(first.sdo@, 'W') {
                    elements_head(index, n, true) + " => {\n                let v = "@ + scalar.rust
                        + "::from_le_bytes(od::exact::<"@ + decimal(scalar.size)
                        + ">(data)?);\n"@ + array_limits(table, n, scalar, ctx)->Ok_0
                        + "                self."@ + element
                        + " = v;\n                Ok(())\n            }"@
                } else {
                    elements_head(index, n, false) + " => Err(OdError::ReadOnly),"@
                },
            )
        }),
{
    let scalar = scalar_of(first.data_type@)->0;
    lemma_element_inits(table, n, scalar, ctx);
    law_patterns_name_the_object(index, 0, n);
    law_sdo_rights_agree_with_the_description(first.sdo@, ctx);
    lemma_refusal_arms(elements_head(index, n, false));
    (after.fields.last(), element_inits(table, n, scalar, ctx)->Ok_0.0)
}

/// The limits of an array whose elements have different limits: for each
/// element its own checks, which apply to its sub-index alone, in order.
pub proof fn law_element_limits_apply_to_their_element(
    table: Seq<Option<OdSubObject>>,
    n: nat,
    scalar: ScalarSpec,
    ctx: Seq<char>,
)
    requires
        n > 0,
    ensures
        element_limits(table, n, scalar, ctx) matches Ok(lines) ==> element_limits(
            table,
            (n - 1) as nat,
            scalar,
            ctx,
        ) matches Ok(before) && lines == before + limit_lines_of(
            table[n as int]->0,
            "s == 0x"@ + hex(n, 2, true) + " && "@,
            scalar,
            ctx,
        ),
        element_limits(table, 0, scalar, ctx) == Ok::<_, Seq<char>>(Seq::<char>::empty()),
        uniform_limits(table, n) ==> (array_limits(table, n, scalar, ctx) matches Ok(lines)
            ==> lines == limit_lines_of(table[1]->0, Seq::empty(), scalar, ctx)),
        !uniform_limits(table, n) ==> array_limits(table, n, scalar, ctx) == element_limits(
            table,
            n,
            scalar,
            ctx,
        ),
        uniform_limits(table, n) <==> forall|sub: int|
            1 <= sub <= n ==> (#[trigger] table[sub])->0.low_limit@ == table[1]->0.low_limit@
                && table[sub]->0.high_limit@ == table[1]->0.high_limit@,
{
    reveal_strlit("s == ");
    reveal_strlit("0x");
    reveal_strlit("s == 0x");
    reveal_strlit("");
    assert(""@ =~= Seq::<char>::empty());
    assert("s == 0x"@ =~= "s == "@ + "0x"@);
    assert(element_guard(n) =~= "s == 0x"@ + hex(n, 2, true) + " && "@);
    law_limits_are_checked_as_described(table[n as int]->0, element_guard(n), scalar, true, ctx);
    law_limits_are_checked_as_described(table[1]->0, Seq::empty(), scalar, true, ctx);
}

/// `name` with `marks` underscores at its end.
pub open spec fn marked(name: Seq<char>, marks: nat) -> Seq<char> {
    name + Seq::new(marks, |i: int| '_')
}

/// A field name is the index in lower case hexadecimal after an `x`, an
/// underscore and the sanitized source, with no more underscores at the end
/// than it takes to be different from all names before it.
pub proof fn law_field_names_come_from_index_and_source(
    index: u16,
    source: Seq<char>,
    names: Seq<Seq<char>>,
) -> (marks: nat)
    ensures
        ({
            let plain = "x"@ + hex(index as nat, 4, false) + "_"@ + sanitized(source);
            &&& unique_name(index, source, names) == marked(plain, marks)
            &&& !names.contains(unique_name(index, source, names))
            &&& forall|k: nat| k < marks ==> names.contains(#[trigger] marked(plain, k))
        }),
{
    lemma_first_free("x"@ + hex(index as nat, 4, false) + "_"@ + sanitized(source), names)
}

proof fn lemma_first_free(name: Seq<char>, names: Seq<Seq<char>>) -> (marks: nat)
    ensures
        first_free(name, names) == marked(name, marks),
        !names.contains(first_free(name, names)),
        forall|k: nat| k < marks ==> names.contains(#[trigger] marked(name, k)),
    decreases count_longer(names, name.len()),
{
    if names.contains(name) {
        lemma_count_longer(names, name);
        let more = lemma_first_free(name.push('_'), names);
        assert(marked(name.push('_'), more) =~= marked(name, more + 1));
        assert forall|k: nat| k < more + 1 implies names.contains(#[trigger] marked(name, k)) by {
            if k == 0 {
                assert(marked(name, k) =~= name);
            } else {
                assert(names.contains(marked(name.push('_'), (k - 1) as nat)));
                assert(marked(name.push('_'), (k - 1) as nat) =~= marked(name, k));
            }
        }
        more + 1
    } else {
        assert(marked(name, 0) =~= name);
        0
    }
}

/// A sub-object is named after its alias, else its name, else the alias of
/// its object, else the name of its object: the first of them that is set.
pub proof fn law_the_first_name_that_is_set_counts(obj: OdObject, sub_obj: OdSubObject)
    ensures
        sub_obj.alias@.len() > 0 ==> sub_source(obj, sub_obj) == sub_obj.alias@,
        sub_obj.alias@.len() == 0 && sub_obj.name@.len() > 0 ==> sub_source(obj, sub_obj)
            == sub_obj.name@,
        sub_obj.alias@.len() == 0 && sub_obj.name@.len() == 0 && obj.alias@.len() > 0
            ==> sub_source(obj, sub_obj) == obj.alias@,
        sub_obj.alias@.len() == 0 && sub_obj.name@.len() == 0 && obj.alias@.len() == 0
            ==> sub_source(obj, sub_obj) == obj.name@,
{
}

/// Documentation and errors name the object by index and sub-index and the
/// names of the description.
pub proof fn law_documentation_names_the_object(
    index: u16,
    sub: u8,
    obj: OdObject,
    sub_obj: OdSubObject,
    n: nat,
)
    ensures
        sub_context(index, sub, obj) == "object 0x"@ + hex(index as nat, 4, true) + " sub 0x"@
            + hex(sub as nat, 2, true) + " ("@ + obj.name@ + ")"@,
        sub_doc(index, sub, obj, sub_obj) == "0x"@ + hex(index as nat, 4, true) + ":"@ + hex(
            sub as nat,
            2,
            true,
        ) + " "@ + obj.name@ + (if sub_obj.name@.len() > 0 {
            " / "@ + sub_obj.name@
        } else {
            Seq::empty()
        }) + " — "@ + sub_obj.data_type@ + ", "@ + access_label(sub_obj.sdo@),
        array_doc(index, obj, sub_obj, n) == "0x"@ + hex(index as nat, 4, true) + ":01..="@ + hex(
            n,
            2,
            true,
        ) + " "@ + obj.name@ + " — "@ + sub_obj.data_type@ + "["@ + decimal(n) + "], "@
            + access_label(sub_obj.sdo@),
{
    reveal_strlit("object ");
    reveal_strlit("0x");
    reveal_strlit("object 0x");
    reveal_strlit(" sub ");
    reveal_strlit(" sub 0x");
    reveal_strlit("");
    assert("object 0x"@ =~= "object "@ + "0x"@);
    assert(" sub 0x"@ =~= " sub "@ + "0x"@);
    assert(sub_context(index, sub, obj) =~= "object 0x"@ + hex(index as nat, 4, true) + " sub 0x"@
        + hex(sub as nat, 2, true) + " ("@ + obj.name@ + ")"@);
    assert(sub_doc(index, sub, obj, sub_obj) =~= "0x"@ + hex(index as nat, 4, true) + ":"@ + hex(
        sub as nat,
        2,
        true,
    ) + " "@ + obj.name@ + (if sub_obj.name@.len() > 0 {
        " / "@ + sub_obj.name@
    } else {
        Seq::empty()
    }) + " — "@ + sub_obj.data_type@ + ", "@ + access_label(sub_obj.sdo@));
}

} // verus!

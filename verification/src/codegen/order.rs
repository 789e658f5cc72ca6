//! The order of what is generated.

use crate::codegen::counts::{before, lemma_before_total};
use crate::codegen::gen::{any_sub, array_object, element_pattern, object_output, objects_output};
use crate::codegen::gen::{present, range_pattern, record_subs, sub_pattern, sub_source};
use crate::codegen::gen::{sub_table, unknown_sub_arm, FieldSpec, OutputSpec};
use crate::codegen::laws::enabled;
use crate::codegen::model::{in_key_order, set_or, CanOpenDevice, OdObject, OdSubObject};
use crate::codegen::names::{count_longer, first_free, lemma_count_longer, sanitized, unique_name};
use crate::number::{digit_value, digits_value, unsigned_value};
use crate::text::{has_prefix, hex, hex_literal};
use vstd::prelude::*;

verus! {

/// How the names of the fields for an object start.
pub open spec fn field_start(index: u16) -> Seq<char> {
    "x"@ + hex(index as nat, 4, false) + "_"@
}

/// How the match arms for an object start.
pub open spec fn arm_start(index: u16) -> Seq<char> {
    "("@ + hex_literal(index as nat, 4)
}

/// Whether the list `more` is the list `arms`, followed by arms for an
/// object.
pub open spec fn arms_go_on(arms: Seq<Seq<char>>, more: Seq<Seq<char>>, index: u16) -> bool {
    &&& arms.len() <= more.len()
    &&& more.take(arms.len() as int) == arms
    &&& forall|k: int|
        arms.len() <= k < more.len() ==> has_prefix(#[trigger] more[k], arm_start(index))
}

/// Whether the list `more` is the list `fields`, followed by fields for an
/// object.
pub open spec fn fields_go_on(fields: Seq<FieldSpec>, more: Seq<FieldSpec>, index: u16) -> bool {
    &&& fields.len() <= more.len()
    &&& more.take(fields.len() as int) == fields
    &&& forall|k: int|
        fields.len() <= k < more.len() ==> has_prefix(
            (#[trigger] more[k]).name,
            field_start(index),
        )
}

/// Whether the output `more` is the output `out`, followed by fields and arms
/// for an object.
pub open spec fn goes_on(out: OutputSpec, more: OutputSpec, index: u16) -> bool {
    &&& fields_go_on(out.fields, more.fields, index)
    &&& arms_go_on(out.info_arms, more.info_arms, index)
    &&& arms_go_on(out.read_arms, more.read_arms, index)
    &&& arms_go_on(out.write_arms, more.write_arms, index)
}

proof fn lemma_arms_go_on(a: Seq<Seq<char>>, b: Seq<Seq<char>>, c: Seq<Seq<char>>, index: u16)
    requires
        arms_go_on(a, b, index),
        arms_go_on(b, c, index),
    ensures
        arms_go_on(a, c, index),
{
    assert(c.take(a.len() as int) =~= c.take(b.len() as int).take(a.len() as int));
    assert forall|k: int| a.len() <= k < c.len() implies has_prefix(
        #[trigger] c[k],
        arm_start(index),
    ) by {
        if k < b.len() {
            assert(c.take(b.len() as int)[k] == b[k]);
        }
    }
}

proof fn lemma_goes_on(a: OutputSpec, b: OutputSpec, c: OutputSpec, index: u16)
    requires
        goes_on(a, b, index),
        goes_on(b, c, index),
    ensures
        goes_on(a, c, index),
{
    lemma_arms_go_on(a.info_arms, b.info_arms, c.info_arms, index);
    lemma_arms_go_on(a.read_arms, b.read_arms, c.read_arms, index);
    lemma_arms_go_on(a.write_arms, b.write_arms, c.write_arms, index);
    assert(c.fields.take(a.fields.len() as int) =~= c.fields.take(b.fields.len() as int).take(
        a.fields.len() as int,
    ));
    assert forall|k: int| a.fields.len() <= k < c.fields.len() implies has_prefix(
        (#[trigger] c.fields[k]).name,
        field_start(index),
    ) by {
        if k < b.fields.len() {
            assert(c.fields.take(b.fields.len() as int)[k] == b.fields[k]);
        }
    }
}

/// A text that goes on starts as it started.
proof fn lemma_prefix_of_sum(p: Seq<char>)
    ensures
        has_prefix(p, p),
        forall|a: Seq<char>, b: Seq<char>|
            has_prefix(a, p) ==> #[trigger] has_prefix(a + b, p),
{
    assert(p.take(p.len() as int) =~= p);
    assert forall|a: Seq<char>, b: Seq<char>| has_prefix(a, p) implies #[trigger] has_prefix(
        a + b,
        p,
    ) by {
        assert((a + b).take(p.len() as int) =~= a.take(p.len() as int));
    }
}

/// A chosen name starts as the wanted one.
proof fn lemma_free_name_starts(name: Seq<char>, names: Seq<Seq<char>>, p: Seq<char>)
    requires
        has_prefix(name, p),
    ensures
        has_prefix(first_free(name, names), p),
    decreases count_longer(names, name.len()),
{
    if names.contains(name) {
        lemma_count_longer(names, name);
        assert(name.push('_').take(p.len() as int) =~= name.take(p.len() as int));
        lemma_free_name_starts(name.push('_'), names, p);
    }
}

proof fn lemma_unique_name_starts(index: u16, source: Seq<char>, names: Seq<Seq<char>>)
    ensures
        has_prefix(unique_name(index, source, names), field_start(index)),
{
    lemma_prefix_of_sum(field_start(index));
    lemma_free_name_starts(field_start(index) + sanitized(source), names, field_start(index));
}

/// One more arm in each method, and a field or none.
proof fn lemma_one_more(out: OutputSpec, more: OutputSpec, index: u16)
    requires
        more.info_arms == out.info_arms.push(more.info_arms.last()),
        more.read_arms == out.read_arms.push(more.read_arms.last()),
        more.write_arms == out.write_arms.push(more.write_arms.last()),
        has_prefix(more.info_arms.last(), arm_start(index)),
        has_prefix(more.read_arms.last(), arm_start(index)),
        has_prefix(more.write_arms.last(), arm_start(index)),
        more.fields == out.fields || (more.fields == out.fields.push(more.fields.last())
            && has_prefix(more.fields.last().name, field_start(index))),
    ensures
        goes_on(out, more, index),
{
    assert(more.info_arms.take(out.info_arms.len() as int) =~= out.info_arms);
    assert(more.read_arms.take(out.read_arms.len() as int) =~= out.read_arms);
    assert(more.write_arms.take(out.write_arms.len() as int) =~= out.write_arms);
    assert(more.fields.take(out.fields.len() as int) =~= out.fields);
}

proof fn lemma_any_sub_goes_on(
    out: OutputSpec,
    index: u16,
    sub: u8,
    obj: OdObject,
    sub_obj: OdSubObject,
)
    requires
        any_sub(out, index, sub, obj, sub_obj) is Ok,
    ensures
        goes_on(out, any_sub(out, index, sub, obj, sub_obj)->Ok_0, index),
{
    reveal(any_sub);
    let more = any_sub(out, index, sub, obj, sub_obj)->Ok_0;
    lemma_prefix_of_sum(arm_start(index));
    assert(has_prefix(sub_pattern(index, sub), arm_start(index)));
    assert(has_prefix(more.info_arms.last(), arm_start(index)));
    assert(has_prefix(more.read_arms.last(), arm_start(index)));
    assert(has_prefix(more.write_arms.last(), arm_start(index)));
    let names = out.fields.map_values(|f: FieldSpec| f.name);
    lemma_unique_name_starts(index, sub_source(obj, sub_obj), names);
    lemma_one_more(out, more, index);
}

proof fn lemma_record_goes_on(
    out: OutputSpec,
    index: u16,
    obj: OdObject,
    table: Seq<Option<OdSubObject>>,
    n: nat,
)
    requires
        record_subs(out, index, obj, table, n) is Ok,
    ensures
        goes_on(out, record_subs(out, index, obj, table, n)->Ok_0, index),
    decreases n,
{
    if n > 0 {
        let mid = record_subs(out, index, obj, table, (n - 1) as nat)->Ok_0;
        lemma_record_goes_on(out, index, obj, table, (n - 1) as nat);
        if table[n - 1] is Some {
            lemma_any_sub_goes_on(mid, index, (n - 1) as u8, obj, table[n - 1]->0);
            lemma_goes_on(
                out,
                mid,
                record_subs(out, index, obj, table, n)->Ok_0,
                index,
            );
        }
    } else {
        lemma_goes_on_with_nothing(out, index);
    }
}

proof fn lemma_goes_on_with_nothing(out: OutputSpec, index: u16)
    ensures
        goes_on(out, out, index),
{
    assert(out.fields.take(out.fields.len() as int) =~= out.fields);
    assert(out.info_arms.take(out.info_arms.len() as int) =~= out.info_arms);
    assert(out.read_arms.take(out.read_arms.len() as int) =~= out.read_arms);
    assert(out.write_arms.take(out.write_arms.len() as int) =~= out.write_arms);
}

proof fn lemma_array_goes_on(
    out: OutputSpec,
    index: u16,
    obj: OdObject,
    table: Seq<Option<OdSubObject>>,
)
    requires
        array_object(out, index, obj, table) is Ok,
    ensures
        goes_on(out, array_object(out, index, obj, table)->Ok_0, index),
{
    let n = (present(table, 256) - 1) as nat;
    let mid = any_sub(out, index, 0, obj, table[0]->0)->Ok_0;
    let more = array_object(out, index, obj, table)->Ok_0;
    lemma_any_sub_goes_on(out, index, 0, obj, table[0]->0);
    if n != 0 {
        lemma_prefix_of_sum(arm_start(index));
        assert(has_prefix(element_pattern(index, n), arm_start(index)));
        assert(has_prefix(range_pattern(index, n), arm_start(index)));
        assert(has_prefix(more.info_arms.last(), arm_start(index)));
        assert(has_prefix(more.read_arms.last(), arm_start(index)));
        assert(has_prefix(more.write_arms.last(), arm_start(index)));
        let names = mid.fields.map_values(|f: FieldSpec| f.name);
        lemma_unique_name_starts(index, set_or(obj.alias@, obj.name@), names);
        lemma_one_more(mid, more, index);
        lemma_goes_on(out, mid, more, index);
    }
}

/// The index of the object with a key.
pub open spec fn key_index(key: Seq<char>) -> u16 {
    unsigned_value(key, 16, 0xFFFF)->0 as u16
}

/// What is generated for the objects before the one at the position `i`.
pub open spec fn output_before(objects: Seq<(String, OdObject)>, i: int) -> OutputSpec {
    objects_output(objects.take(i))->Ok_0.0
}

/// What the last of some objects adds.
proof fn lemma_last_object(objects: Seq<(String, OdObject)>)
    requires
        objects.len() > 0,
        objects_output(objects) is Ok,
    ensures
        objects_output(objects.drop_last()) is Ok,
        goes_on(
            objects_output(objects.drop_last())->Ok_0.0,
            objects_output(objects)->Ok_0.0,
            key_index(objects.last().0@),
        ),
        !enabled(objects.last()) ==> objects_output(objects)->Ok_0.0 == objects_output(
            objects.drop_last(),
        )->Ok_0.0,
        enabled(objects.last()) ==> {
            let last = unknown_sub_arm(key_index(objects.last().0@));
            let out = objects_output(objects)->Ok_0.0;
            let before = objects_output(objects.drop_last())->Ok_0.0;
            &&& out.info_arms.len() > before.info_arms.len() && out.info_arms.last() == last
            &&& out.read_arms.len() > before.read_arms.len() && out.read_arms.last() == last
            &&& out.write_arms.len() > before.write_arms.len() && out.write_arms.last() == last
        },
{
    let key = objects.last().0@;
    let obj = objects.last().1;
    let index = key_index(key);
    let out = objects_output(objects.drop_last())->Ok_0.0;
    if enabled(objects.last()) {
        let table = sub_table(key, obj.sub_objects@)->Ok_0;
        let own = object_output(out, index, key, obj, table)->Ok_0;
        reveal(object_output);
        if obj.object_type@ == "OBJECT_TYPE_VAR"@ {
            lemma_any_sub_goes_on(out, index, 0, obj, table[0]->0);
        } else if obj.object_type@ == "OBJECT_TYPE_ARRAY"@ {
            lemma_array_goes_on(out, index, obj, table);
        } else {
            lemma_record_goes_on(out, index, obj, table, 256);
        }
        lemma_prefix_of_sum(arm_start(index));
        assert(has_prefix(unknown_sub_arm(index), arm_start(index)));
        lemma_one_more(own, objects_output(objects)->Ok_0.0, index);
        lemma_goes_on(out, own, objects_output(objects)->Ok_0.0, index);
    } else {
        lemma_goes_on_with_nothing(out, index);
    }
}

/// Whether the output `out` is the beginning of the output `whole`.
pub open spec fn begins(out: OutputSpec, whole: OutputSpec) -> bool {
    &&& out.fields.is_prefix_of(whole.fields)
    &&& out.info_arms.is_prefix_of(whole.info_arms)
    &&& out.read_arms.is_prefix_of(whole.read_arms)
    &&& out.write_arms.is_prefix_of(whole.write_arms)
}

/// What was generated first stays first.
proof fn lemma_begins(objects: Seq<(String, OdObject)>, i: int)
    requires
        objects_output(objects) is Ok,
        0 <= i <= objects.len(),
    ensures
        objects_output(objects.take(i)) is Ok,
        begins(output_before(objects, i), objects_output(objects)->Ok_0.0),
    decreases objects.len(),
{
    if i == objects.len() {
        assert(objects.take(i) =~= objects);
    } else {
        lemma_last_object(objects);
        lemma_begins(objects.drop_last(), i);
        assert(objects.drop_last().take(i) =~= objects.take(i));
        let mid = objects_output(objects.drop_last())->Ok_0.0;
        let whole = objects_output(objects)->Ok_0.0;
        assert(whole.fields.take(mid.fields.len() as int) == mid.fields);
        assert(whole.info_arms.take(mid.info_arms.len() as int) == mid.info_arms);
        assert(whole.read_arms.take(mid.read_arms.len() as int) == mid.read_arms);
        assert(whole.write_arms.take(mid.write_arms.len() as int) == mid.write_arms);
        lemma_prefix_chain(output_before(objects, i).fields, mid.fields, whole.fields);
        lemma_prefix_chain(output_before(objects, i).info_arms, mid.info_arms, whole.info_arms);
        lemma_prefix_chain(output_before(objects, i).read_arms, mid.read_arms, whole.read_arms);
        lemma_prefix_chain(
            output_before(objects, i).write_arms,
            mid.write_arms,
            whole.write_arms,
        );
    }
}

proof fn lemma_prefix_chain<A>(a: Seq<A>, b: Seq<A>, c: Seq<A>)
    requires
        a.is_prefix_of(b),
        b.len() <= c.len(),
        c.take(b.len() as int) == b,
    ensures
        a.is_prefix_of(c),
{
    assert(c.subrange(0, a.len() as int) =~= c.take(b.len() as int).subrange(0, a.len() as int));
}

/// Every object has its own part of the generated code, in one piece: what is
/// generated for the objects before it comes first, then its own fields and
/// arms, which all start with its index, then everything else. The part of an
/// enabled object ends with the arm for its unknown sub-indices; the part of
/// a disabled one is empty.
pub proof fn law_objects_have_their_own_part(objects: Seq<(String, OdObject)>, i: int)
    requires
        objects_output(objects) is Ok,
        0 <= i < objects.len(),
    ensures
        ({
            let whole = objects_output(objects)->Ok_0.0;
            let first = output_before(objects, i);
            let own = output_before(objects, i + 1);
            let index = key_index(objects[i].0@);
            let last = unknown_sub_arm(index);
            &&& begins(own, whole)
            &&& goes_on(first, own, index)
            &&& !enabled(objects[i]) ==> own == first
            &&& enabled(objects[i]) ==> {
                &&& own.info_arms.len() > first.info_arms.len() && own.info_arms.last() == last
                &&& own.read_arms.len() > first.read_arms.len() && own.read_arms.last() == last
                &&& own.write_arms.len() > first.write_arms.len() && own.write_arms.last()
                    == last
            }
        }),
        output_before(objects, objects.len() as int) == objects_output(objects)->Ok_0.0,
{
    let upto = objects.take(i + 1);
    lemma_begins(objects, i + 1);
    lemma_last_object(upto);
    assert(upto.drop_last() =~= objects.take(i));
    assert(upto.last() == objects[i]);
    assert(objects.take(objects.len() as int) =~= objects);
}

/// The code of a device whose objects are listed in key order comes out in
/// key order, each object once: of two objects, the one with the smaller key
/// has its fields and arms before those of the other, and no two objects have
/// the same key.
pub proof fn law_code_comes_in_key_order(device: CanOpenDevice, i: int, j: int)
    requires
        in_key_order(device),
        objects_output(device.objects@) is Ok,
        0 <= i < device.objects@.len(),
        0 <= j < device.objects@.len(),
        i != j,
    ensures
        ({
            let objects = device.objects@;
            let end = output_before(objects, i + 1);
            let start = output_before(objects, j);
            &&& objects[i].0@ != objects[j].0@
            &&& before(objects[i].0@, objects[j].0@) <==> i < j
            &&& before(objects[i].0@, objects[j].0@) ==> begins(end, start)
        }),
{
    let objects = device.objects@;
    lemma_before_total(objects[i].0@, objects[i].0@);
    if i < j {
        assert(before(objects[i].0@, objects[j].0@));
        lemma_begins(objects, j);
        lemma_begins(objects.take(j), i + 1);
        assert(objects.take(j).take(i + 1) =~= objects.take(i + 1));
    } else {
        assert(before(objects[j].0@, objects[i].0@));
        lemma_before_asymmetric(objects[j].0@, objects[i].0@);
    }
}

proof fn lemma_before_asymmetric(a: Seq<char>, b: Seq<char>)
    requires
        before(a, b),
    ensures
        !before(b, a),
    decreases a.len(),
{
    if a.len() > 0 && a[0] == b[0] {
        lemma_before_asymmetric(a.skip(1), b.skip(1));
    }
}

/// Whether a key is written with uppercase hexadecimal digits.
pub open spec fn is_hex_key(key: Seq<char>) -> bool {
    forall|i: int|
        0 <= i < key.len() ==> 48 <= (#[trigger] key[i]) as int <= 57 || 65 <= key[i] as int <= 70
}

/// Of two keys that differ in the last digit only, the last digit decides;
/// else what stands before it does.
proof fn lemma_before_by_last(a: Seq<char>, b: Seq<char>)
    requires
        a.len() == b.len() > 0,
        before(a, b),
    ensures
        before(a.drop_last(), b.drop_last()) || (a.drop_last() == b.drop_last() && (
        a.last() as int) < (b.last() as int)),
    decreases a.len(),
{
    if a.len() == 1 {
        assert(a.drop_last() =~= b.drop_last());
        assert(!before(a.skip(1), b.skip(1)));
    } else {
        assert(a.drop_last()[0] == a[0] && b.drop_last()[0] == b[0]);
        if a[0] == b[0] {
            lemma_before_by_last(a.skip(1), b.skip(1));
            assert(a.skip(1).drop_last() =~= a.drop_last().skip(1));
            assert(b.skip(1).drop_last() =~= b.drop_last().skip(1));
            assert(a.skip(1).last() == a.last() && b.skip(1).last() == b.last());
            if a.skip(1).drop_last() == b.skip(1).drop_last() {
                assert(a.drop_last() =~= seq![a[0]] + a.skip(1).drop_last());
                assert(b.drop_last() =~= seq![b[0]] + b.skip(1).drop_last());
            }
        }
    }
}

/// Keys of the same length that are written with uppercase hexadecimal digits
/// are ordered as the numbers that they denote, so objects in key order are
/// in the order of their indices.
pub proof fn law_keys_are_ordered_as_numbers(a: Seq<char>, b: Seq<char>)
    requires
        a.len() == b.len(),
        is_hex_key(a),
        is_hex_key(b),
        before(a, b),
    ensures
        digits_value(a, 16) is Some,
        digits_value(b, 16) is Some,
        digits_value(a, 16)->0 < digits_value(b, 16)->0,
    decreases a.len(),
{
    lemma_hex_key_has_value(a);
    lemma_hex_key_has_value(b);
    let (x, y) = (a.drop_last(), b.drop_last());
    lemma_before_by_last(a, b);
    lemma_hex_key_has_value(x);
    lemma_hex_key_has_value(y);
    assert(digit_value(a.last(), 16) is Some && digit_value(b.last(), 16) is Some) by {
        assert(a.last() == a[a.len() - 1] && b.last() == b[b.len() - 1]);
    }
    if before(x, y) {
        assert(is_hex_key(x)) by {
            assert forall|i: int| 0 <= i < x.len() implies 48 <= (#[trigger] x[i]) as int <= 57
                || 65 <= x[i] as int <= 70 by {
                assert(x[i] == a[i]);
            }
        }
        assert(is_hex_key(y)) by {
            assert forall|i: int| 0 <= i < y.len() implies 48 <= (#[trigger] y[i]) as int <= 57
                || 65 <= y[i] as int <= 70 by {
                assert(y[i] == b[i]);
            }
        }
        law_keys_are_ordered_as_numbers(x, y);
    } else {
        assert(a[a.len() - 1] == a.last() && b[b.len() - 1] == b.last());
    }
}

proof fn lemma_hex_key_has_value(key: Seq<char>)
    ensures
        is_hex_key(key) ==> digits_value(key, 16) is Some,
    decreases key.len(),
{
    if key.len() > 0 && is_hex_key(key) {
        assert forall|i: int| 0 <= i < key.drop_last().len() implies 48
            <= (#[trigger] key.drop_last()[i]) as int <= 57 || 65 <= key.drop_last()[i] as int
            <= 70 by {
            assert(key.drop_last()[i] == key[i]);
        }
        lemma_hex_key_has_value(key.drop_last());
        assert(key[key.len() - 1] == key.last());
    }
}

} // verus!

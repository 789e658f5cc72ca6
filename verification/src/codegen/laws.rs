//! What holds of all generated code.

use crate::codegen::counts::{ascending, count_of, law_counting_adds_one};
use crate::codegen::counts::law_counting_keeps_order;
use crate::codegen::gen::{any_sub, array_limits, array_object, element_guard, element_limits};
use crate::codegen::gen::{empty_output, field_names, limits_text, object_output, objects_output};
use crate::codegen::gen::{present, record_subs, sub_source, sub_table, uniform_limits, FieldSpec};
use crate::codegen::gen::OutputSpec;
use crate::codegen::model::{set_or, OdObject, OdSubObject};
use crate::codegen::names::{law_first_free_is_free, sanitized, unique_name};
use crate::codegen::values::{literal, plain_int, ScalarSpec};
use crate::number::{is_hex, law_digits_read_back, unsigned_value};
use crate::text::{decimal, digit_char, digits, has_prefix, hex, hex_literal};
use crate::text::{lemma_quotient_is_smaller, signed_decimal};
use vstd::prelude::*;

verus! {

/// Whether an object takes part in the generation.
pub open spec fn enabled(entry: (String, OdObject)) -> bool {
    !entry.1.disabled
}

/// Disabled objects leave no trace: the code is the code of the description
/// without them.
pub proof fn law_disabled_objects_are_not_generated(objects: Seq<(String, OdObject)>)
    ensures
        objects_output(objects) == objects_output(
            objects.filter(|entry: (String, OdObject)| enabled(entry)),
        ),
    decreases objects.len(),
{
    let keep = |entry: (String, OdObject)| enabled(entry);
    reveal(Seq::filter);
    if objects.len() > 0 {
        law_disabled_objects_are_not_generated(objects.drop_last());
        let rest = objects.drop_last().filter(keep);
        if enabled(objects.last()) {
            assert(objects.filter(keep) == rest.push(objects.last()));
            assert(rest.push(objects.last()).drop_last() =~= rest);
        }
    }
}

/// How many enabled objects of a description carry the label `label`.
pub open spec fn labelled(objects: Seq<(String, OdObject)>, label: Seq<char>) -> nat
    decreases objects.len(),
{
    if objects.len() == 0 {
        0
    } else {
        labelled(objects.drop_last(), label) + if enabled(objects.last())
            && objects.last().1.count_label@ == label {
            1nat
        } else {
            0nat
        }
    }
}

/// The generated object counts are the numbers of enabled objects with each
/// label, in ascending order of the labels, each label once.
pub proof fn law_counts_are_object_counts(objects: Seq<(String, OdObject)>, label: Seq<char>)
    requires
        objects_output(objects) is Ok,
        label.len() > 0,
    ensures
        count_of(objects_output(objects)->Ok_0.1, label) == labelled(objects, label),
        ascending(objects_output(objects)->Ok_0.1),
    decreases objects.len(),
{
    if objects.len() > 0 {
        law_counts_are_object_counts(objects.drop_last(), label);
        let before = objects_output(objects.drop_last())->Ok_0.1;
        let own = objects.last().1.count_label@;
        if enabled(objects.last()) && own.len() > 0 {
            law_counting_adds_one(before, own, label);
            law_counting_keeps_order(before, own);
        }
    }
}

/// Whether the fields of an output have different names.
pub open spec fn distinct_fields(out: OutputSpec) -> bool {
    field_names(out).no_duplicates()
}

/// A field with a chosen name keeps the names different.
proof fn lemma_with_field(
    before: OutputSpec,
    after: OutputSpec,
    index: u16,
    source: Seq<char>,
    field: FieldSpec,
)
    requires
        distinct_fields(before),
        after.fields == before.fields.push(field),
        field.name == unique_name(index, source, field_names(before)),
    ensures
        distinct_fields(after),
{
    let names = field_names(before);
    law_first_free_is_free("x"@ + hex(index as nat, 4, false) + "_"@ + sanitized(source), names);
    assert(field_names(after) =~= names.push(field.name));
    assert forall|i: int, j: int|
        0 <= i < j < names.len() + 1 implies names.push(field.name)[i] != names.push(
        field.name,
    )[j] by {
        if j == names.len() {
            assert(names.contains(names[i]));
        }
    }
}

proof fn lemma_any_sub_distinct(
    out: OutputSpec,
    index: u16,
    sub: u8,
    obj: OdObject,
    sub_obj: OdSubObject,
)
    requires
        distinct_fields(out),
        any_sub(out, index, sub, obj, sub_obj) is Ok,
    ensures
        distinct_fields(any_sub(out, index, sub, obj, sub_obj)->Ok_0),
{
    reveal(any_sub);
    let after = any_sub(out, index, sub, obj, sub_obj)->Ok_0;
    if sub_obj.data_type@ == "DOMAIN"@ {
        assert(after.fields == out.fields);
    } else {
        assert(after.fields == out.fields.push(after.fields.last()));
        lemma_with_field(
            out,
            after,
            index,
            sub_source(obj, sub_obj),
            after.fields.last(),
        );
    }
}

proof fn lemma_record_distinct(
    out: OutputSpec,
    index: u16,
    obj: OdObject,
    table: Seq<Option<OdSubObject>>,
    n: nat,
)
    requires
        distinct_fields(out),
        record_subs(out, index, obj, table, n) is Ok,
    ensures
        distinct_fields(record_subs(out, index, obj, table, n)->Ok_0),
    decreases n,
{
    if n > 0 {
        lemma_record_distinct(out, index, obj, table, (n - 1) as nat);
        let mid = record_subs(out, index, obj, table, (n - 1) as nat)->Ok_0;
        if table[n - 1] is Some {
            lemma_any_sub_distinct(mid, index, (n - 1) as u8, obj, table[n - 1]->0);
        }
    }
}

proof fn lemma_array_distinct(
    out: OutputSpec,
    index: u16,
    obj: OdObject,
    table: Seq<Option<OdSubObject>>,
)
    requires
        distinct_fields(out),
        array_object(out, index, obj, table) is Ok,
    ensures
        distinct_fields(array_object(out, index, obj, table)->Ok_0),
{
    let after = array_object(out, index, obj, table)->Ok_0;
    let mid = any_sub(out, index, 0, obj, table[0]->0)->Ok_0;
    lemma_any_sub_distinct(out, index, 0, obj, table[0]->0);
    if (present(table, 256) - 1) as nat != 0 {
        assert(after.fields == mid.fields.push(after.fields.last()));
        lemma_with_field(
            mid,
            after,
            index,
            set_or(obj.alias@, obj.name@),
            after.fields.last(),
        );
    }
}

/// The fields of the generated struct have different names, however the
/// objects are named.
pub proof fn law_field_names_are_unique(objects: Seq<(String, OdObject)>)
    requires
        objects_output(objects) is Ok,
    ensures
        distinct_fields(objects_output(objects)->Ok_0.0),
    decreases objects.len(),
{
    if objects.len() > 0 {
        law_field_names_are_unique(objects.drop_last());
        let obj = objects.last().1;
        if enabled(objects.last()) {
            let key = objects.last().0@;
            let out = objects_output(objects.drop_last())->Ok_0.0;
            let index = unsigned_value(key, 16, 0xFFFF)->0 as u16;
            let table = sub_table(key, obj.sub_objects@)->Ok_0;
            let own = object_output(out, index, key, obj, table)->Ok_0;
            reveal(object_output);
            if obj.object_type@ == "OBJECT_TYPE_VAR"@ {
                lemma_any_sub_distinct(out, index, 0, obj, table[0]->0);
            } else if obj.object_type@ == "OBJECT_TYPE_ARRAY"@ {
                lemma_array_distinct(out, index, obj, table);
            } else {
                lemma_record_distinct(out, index, obj, table, 256);
            }
            assert(field_names(objects_output(objects)->Ok_0.0) == field_names(own));
        }
    } else {
        assert(field_names(empty_output()).len() == 0);
    }
}

/// Whether the three methods of an output have the same number of arms.
pub open spec fn even_arms(out: OutputSpec) -> bool {
    out.info_arms.len() == out.read_arms.len() == out.write_arms.len()
}

proof fn lemma_any_sub_arms(
    out: OutputSpec,
    index: u16,
    sub: u8,
    obj: OdObject,
    sub_obj: OdSubObject,
)
    requires
        even_arms(out),
        any_sub(out, index, sub, obj, sub_obj) is Ok,
    ensures
        even_arms(any_sub(out, index, sub, obj, sub_obj)->Ok_0),
{
    reveal(any_sub);
}

proof fn lemma_record_arms(
    out: OutputSpec,
    index: u16,
    obj: OdObject,
    table: Seq<Option<OdSubObject>>,
    n: nat,
)
    requires
        even_arms(out),
        record_subs(out, index, obj, table, n) is Ok,
    ensures
        even_arms(record_subs(out, index, obj, table, n)->Ok_0),
    decreases n,
{
    if n > 0 {
        lemma_record_arms(out, index, obj, table, (n - 1) as nat);
        if table[n - 1] is Some {
            let mid = record_subs(out, index, obj, table, (n - 1) as nat)->Ok_0;
            lemma_any_sub_arms(mid, index, (n - 1) as u8, obj, table[n - 1]->0);
        }
    }
}

proof fn lemma_object_arms(
    out: OutputSpec,
    index: u16,
    key: Seq<char>,
    obj: OdObject,
    table: Seq<Option<OdSubObject>>,
)
    requires
        even_arms(out),
        object_output(out, index, key, obj, table) is Ok,
    ensures
        even_arms(object_output(out, index, key, obj, table)->Ok_0),
{
    reveal(object_output);
    if obj.object_type@ == "OBJECT_TYPE_VAR"@ || obj.object_type@ == "OBJECT_TYPE_ARRAY"@ {
        lemma_any_sub_arms(out, index, 0, obj, table[0]->0);
    } else {
        lemma_record_arms(out, index, obj, table, 256);
    }
}

/// The three methods of the generated impl have the same number of arms.
pub proof fn law_methods_have_equally_many_arms(objects: Seq<(String, OdObject)>)
    requires
        objects_output(objects) is Ok,
    ensures
        even_arms(objects_output(objects)->Ok_0.0),
    decreases objects.len(),
{
    if objects.len() > 0 {
        law_methods_have_equally_many_arms(objects.drop_last());
        let obj = objects.last().1;
        if enabled(objects.last()) {
            let key = objects.last().0@;
            lemma_object_arms(
                objects_output(objects.drop_last())->Ok_0.0,
                unsigned_value(key, 16, 0xFFFF)->0 as u16,
                key,
                obj,
                sub_table(key, obj.sub_objects@)->Ok_0,
            );
        }
    }
}

/// Whether the text `part` stands somewhere in `whole`.
pub open spec fn is_part_of(part: Seq<char>, whole: Seq<char>) -> bool {
    exists|before: Seq<char>, after: Seq<char>| whole == #[trigger] (before + part + after)
}

/// What stands between two positions of a text is part of it.
pub proof fn lemma_part_at(whole: Seq<char>, from: int, part: Seq<char>)
    requires
        0 <= from <= from + part.len() <= whole.len(),
        whole.subrange(from, from + part.len()) == part,
    ensures
        is_part_of(part, whole),
{
    let before = whole.take(from);
    let after = whole.skip(from + part.len());
    assert(whole =~= before + part + after) by {
        assert forall|i: int| from <= i < from + part.len() implies whole[i] == part[i - from] by {
            assert(whole.subrange(from, from + part.len())[i - from] == whole[i]);
        }
    }
}

proof fn lemma_element_limits_hold_each(
    table: Seq<Option<OdSubObject>>,
    n: nat,
    scalar: ScalarSpec,
    ctx: Seq<char>,
    sub: nat,
)
    requires
        1 <= sub <= n,
        element_limits(table, n, scalar, ctx) is Ok,
    ensures
        ({
            let own = limits_text(table[sub as int]->0, element_guard(sub), scalar, true, ctx);
            own is Ok && is_part_of(own->Ok_0, element_limits(table, n, scalar, ctx)->Ok_0)
        }),
    decreases n,
{
    let whole = element_limits(table, n, scalar, ctx)->Ok_0;
    let rest = element_limits(table, (n - 1) as nat, scalar, ctx)->Ok_0;
    let last = limits_text(table[n as int]->0, element_guard(n), scalar, true, ctx)->Ok_0;
    if sub == n {
        assert(whole =~= rest + last + Seq::<char>::empty());
    } else {
        lemma_element_limits_hold_each(table, (n - 1) as nat, scalar, ctx, sub);
        let own = limits_text(table[sub as int]->0, element_guard(sub), scalar, true, ctx)->Ok_0;
        let (before, after) = choose|before: Seq<char>, after: Seq<char>|
            rest == #[trigger] (before + own + after);
        assert(whole =~= before + own + (after + last));
    }
}

/// Every element of a writable array is held to its own limits: the write arm
/// has the checks for them, for the element's sub-index alone or, where all
/// elements have the same limits, for every sub-index.
pub proof fn law_elements_keep_their_own_limits(
    table: Seq<Option<OdSubObject>>,
    n: nat,
    scalar: ScalarSpec,
    ctx: Seq<char>,
    sub: nat,
)
    requires
        1 <= sub <= n,
        array_limits(table, n, scalar, ctx) is Ok,
    ensures
        ({
            let guard = if uniform_limits(table, n) {
                ""@
            } else {
                element_guard(sub)
            };
            let own = limits_text(table[sub as int]->0, guard, scalar, true, ctx);
            own is Ok && is_part_of(own->Ok_0, array_limits(table, n, scalar, ctx)->Ok_0)
        }),
{
    if uniform_limits(table, n) {
        let own = limits_text(table[1]->0, ""@, scalar, true, ctx);
        assert(limits_text(table[sub as int]->0, ""@, scalar, true, ctx) == own);
        assert(own->Ok_0 =~= Seq::<char>::empty() + own->Ok_0 + Seq::<char>::empty());
    } else {
        lemma_element_limits_hold_each(table, n, scalar, ctx, sub);
    }
}

/// A decimal or hexadecimal number starts with a digit.
proof fn lemma_first_digit(n: nat, base: nat, upper: bool)
    requires
        2 <= base <= 16,
    ensures
        digits(n, base, upper).len() > 0,
        exists|d: nat| d < base && digits(n, base, upper)[0] == #[trigger] digit_char(d, upper),
    decreases n,
{
    if n < base {
        assert(digits(n, base, upper)[0] == digit_char(n, upper));
    } else {
        lemma_quotient_is_smaller(n, base);
        lemma_first_digit(n / base, base, upper);
        assert(digits(n, base, upper)[0] == digits(n / base, base, upper)[0]);
    }
}

/// Decimal digits hold no letter.
proof fn lemma_decimal_digits(n: nat, i: int)
    requires
        0 <= i < decimal(n).len(),
    ensures
        48 <= decimal(n)[i] as int <= 57,
    decreases n,
{
    if n >= 10 && i < decimal(n).len() - 1 {
        assert(decimal(n)[i] == decimal(n / 10)[i]);
        lemma_decimal_digits(n / 10, i);
    }
}

/// A generated literal is a number followed by the type, and the number reads
/// back: it denotes exactly the value that the description configured.
pub proof fn law_literals_read_back(base: int, scalar: ScalarSpec, ctx: Seq<char>)
    requires
        literal(base, scalar, ctx) is Ok,
    ensures
        ({
            let number = if scalar.signed {
                signed_decimal(base)
            } else {
                hex_literal(base as nat, 0)
            };
            &&& literal(base, scalar, ctx)->Ok_0 == number + scalar.rust
            &&& plain_int(number, ctx) == Ok::<int, Seq<char>>(base)
        }),
{
    lemma_numbers_read_back(base, ctx);
}

pub proof fn lemma_numbers_read_back(base: int, ctx: Seq<char>)
    requires
        -0x8000_0000_0000_0000 <= base <= 0xFFFF_FFFF_FFFF_FFFF,
    ensures
        plain_int(signed_decimal(base), ctx) == Ok::<int, Seq<char>>(base),
        base >= 0 ==> plain_int(hex_literal(base as nat, 0), ctx) == Ok::<int, Seq<char>>(base),
{
    reveal_strlit("0x");
    reveal_strlit("0X");
    reveal_strlit("-");
    let magnitude: nat = if base < 0 {
        (-base) as nat
    } else {
        base as nat
    };
    let text = signed_decimal(base);
    let number = decimal(magnitude);
    law_digits_read_back(magnitude, 10, false);
    assert forall|i: int| 0 <= i < number.len() implies 48 <= (#[trigger] number[i]) as int
        <= 57 by {
        lemma_decimal_digits(magnitude, i);
    }
    if is_hex(text) {
        assert(text.take(2)[1] == text[1]);
        assert(has_prefix(text, "0x"@) ==> text[1] == 'x');
        assert(has_prefix(text, "0X"@) ==> text[1] == 'X');
        assert(base < 0 ==> text[1] == number[0]);
    }
    assert(number[0] != '-' && number[0] != '+');
    if base < 0 {
        assert(text[0] == '-');
        assert(text.skip(1) =~= number);
    } else {
        let literal_text = hex_literal(magnitude, 0);
        let hex_digits = digits(magnitude, 16, true);
        law_digits_read_back(magnitude, 16, true);
        lemma_first_digit(magnitude, 16, true);
        assert(literal_text.take(2) =~= "0x"@);
        assert(literal_text.skip(2) =~= hex_digits);
        assert(hex_digits[0] != '-' && hex_digits[0] != '+');
    }
}

} // verus!

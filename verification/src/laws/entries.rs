//! Generated entries: the code for a sub-object follows its description.

use crate::codegen::gen::{any_sub, element_pattern, error_arm, field_names, limit_text};
use crate::codegen::gen::{limits_text, range_pattern, string_capacity, sub_context, sub_pattern};
use crate::codegen::gen::{sub_source, unknown_sub_arm, FieldSpec, OutputSpec};
use crate::codegen::model::{OdObject, OdSubObject};
use crate::codegen::names::{byte_string, law_first_free_is_free, sanitized, unique_name};
use crate::codegen::values::{init_text, int_init, literal, pdo_variant, scalar_of, sdo_rights};
use crate::codegen::values::ScalarSpec;
use crate::laws::description::{grants, law_sdo_rights_agree_with_the_description};
use crate::text::{decimal, hex, trimmed};
use vstd::prelude::*;

verus! {

/// The pattern of one sub-object: index and sub-index in hexadecimal.
pub open spec fn entry_head(index: u16, sub: u8) -> Seq<char> {
    "(0x"@ + hex(index as nat, 4, true) + ", 0x"@ + hex(sub as nat, 2, true) + ")"@
}

/// The pattern of the elements of an array, from sub-index 1 to `n`; `bound`
/// where the sub-index is used.
pub open spec fn elements_head(index: u16, n: nat, bound: bool) -> Seq<char> {
    "(0x"@ + hex(index as nat, 4, true) + (if bound {
        ", s @ 0x01..=0x"@
    } else {
        ", 0x01..=0x"@
    }) + hex(n, 2, true) + ")"@
}

/// The patterns of match arms name the index and the sub-indices in
/// hexadecimal.
pub proof fn law_patterns_name_the_object(index: u16, sub: u8, n: nat)
    ensures
        sub_pattern(index, sub) == entry_head(index, sub),
        element_pattern(index, n) == elements_head(index, n, true),
        range_pattern(index, n) == elements_head(index, n, false),
        unknown_sub_arm(index) == "(0x"@ + hex(index as nat, 4, true)
            + ", _) => Err(OdError::SubIndexNotFound),"@,
{
    reveal_strlit("(");
    reveal_strlit("0x");
    reveal_strlit("(0x");
    reveal_strlit(", ");
    reveal_strlit(", 0x");
    reveal_strlit(", s @ 0x01..=");
    reveal_strlit(", s @ 0x01..=0x");
    reveal_strlit(", 0x01..=");
    reveal_strlit(", 0x01..=0x");
    assert("(0x"@ =~= "("@ + "0x"@);
    assert(", 0x"@ =~= ", "@ + "0x"@);
    assert(", s @ 0x01..=0x"@ =~= ", s @ 0x01..="@ + "0x"@);
    assert(", 0x01..=0x"@ =~= ", 0x01..="@ + "0x"@);
    assert(sub_pattern(index, sub) =~= entry_head(index, sub));
    assert(element_pattern(index, n) =~= elements_head(index, n, true));
    assert(range_pattern(index, n) =~= elements_head(index, n, false));
    assert(unknown_sub_arm(index) =~= "(0x"@ + hex(index as nat, 4, true)
        + ", _) => Err(OdError::SubIndexNotFound),"@);
}

/// The metadata arm of an entry.
pub open spec fn metadata_arm(
    head: Seq<char>,
    data_type: Seq<char>,
    sdo: Seq<char>,
    pdo: Seq<char>,
    size: Seq<char>,
) -> Seq<char> {
    head + " => Ok(EntryInfo { data_type: DataType::"@ + data_type + ", sdo: "@ + sdo + ", pdo: "@
        + pdo + ", size: "@ + size + " }),"@
}

/// The check of one limit: nothing where it is not set, else a comparison
/// with the literal of the number that it denotes.
pub open spec fn limit_line_of(
    limit: Seq<char>,
    guard: Seq<char>,
    compare: Seq<char>,
    refusal: Seq<char>,
    scalar: ScalarSpec,
    ctx: Seq<char>,
) -> Seq<char> {
    if trimmed(limit).len() == 0 {
        Seq::empty()
    } else {
        "                if "@ + guard + compare + literal(
            int_init(limit, ctx)->Ok_0.base,
            scalar,
            ctx,
        )->Ok_0 + refusal
    }
}

/// The checks of both limits: a value below the low limit is too low, one
/// above the high limit too high.
pub open spec fn limit_lines_of(
    sub_obj: OdSubObject,
    guard: Seq<char>,
    scalar: ScalarSpec,
    ctx: Seq<char>,
) -> Seq<char> {
    limit_line_of(
        sub_obj.low_limit@,
        guard,
        "v < "@,
        " { return Err(OdError::ValueTooLow); }\n"@,
        scalar,
        ctx,
    ) + limit_line_of(
        sub_obj.high_limit@,
        guard,
        "v > "@,
        " { return Err(OdError::ValueTooHigh); }\n"@,
        scalar,
        ctx,
    )
}

/// Limits are checked by comparing the written value with them: below the low
/// limit it is refused as too low, above the high limit as too high, and a
/// limit that is not set is not checked. Limits are refused exactly if one of
/// them is no number, does not fit the type or, where that does not count, is
/// relative to the node id.
pub proof fn law_limits_are_checked_as_described(
    sub_obj: OdSubObject,
    guard: Seq<char>,
    scalar: ScalarSpec,
    node_relative: bool,
    ctx: Seq<char>,
)
    ensures
        limits_text(sub_obj, guard, scalar, node_relative, ctx) matches Ok(lines) ==> lines
            == limit_lines_of(sub_obj, guard, scalar, ctx),
        limits_text(sub_obj, guard, scalar, node_relative, ctx) is Ok <==> limit_is_sound(
            sub_obj.low_limit@,
            scalar,
            node_relative,
            ctx,
        ) && limit_is_sound(sub_obj.high_limit@, scalar, node_relative, ctx),
{
    reveal_strlit("v ");
    reveal_strlit("<");
    reveal_strlit(">");
    reveal_strlit(" ");
    reveal_strlit("v < ");
    reveal_strlit("v > ");
    assert("v < "@ =~= "v "@ + "<"@ + " "@);
    assert("v > "@ =~= "v "@ + ">"@ + " "@);
    lemma_refusals();
    lemma_limit_line(
        sub_obj.low_limit@,
        guard,
        "<"@,
        "v < "@,
        "ValueTooLow"@,
        " { return Err(OdError::ValueTooLow); }\n"@,
        scalar,
        node_relative,
        ctx,
    );
    lemma_limit_line(
        sub_obj.high_limit@,
        guard,
        ">"@,
        "v > "@,
        "ValueTooHigh"@,
        " { return Err(OdError::ValueTooHigh); }\n"@,
        scalar,
        node_relative,
        ctx,
    );
}

/// Whether a limit can be checked.
pub open spec fn limit_is_sound(
    limit: Seq<char>,
    scalar: ScalarSpec,
    node_relative: bool,
    ctx: Seq<char>,
) -> bool {
    trimmed(limit).len() == 0 || (int_init(limit, ctx) matches Ok(bound) && {
        &&& bound.plus_node_id ==> node_relative
        &&& literal(bound.base, scalar, ctx) is Ok
    })
}

proof fn lemma_refusals()
    ensures
        " { return Err(OdError::ValueTooLow); }\n"@ == " { return Err(OdError::"@ + "ValueTooLow"@
            + "); }\n"@,
        " { return Err(OdError::ValueTooHigh); }\n"@ == " { return Err(OdError::"@
            + "ValueTooHigh"@ + "); }\n"@,
{
    reveal_strlit(" { return Err(OdError::ValueTooLow); }\n");
    reveal_strlit(" { return Err(OdError::ValueTooHigh); }\n");
    reveal_strlit(" { return Err(OdError::");
    reveal_strlit("ValueTooLow");
    reveal_strlit("ValueTooHigh");
    reveal_strlit("); }\n");
    assert(" { return Err(OdError::ValueTooLow); }\n"@ =~= " { return Err(OdError::"@
        + "ValueTooLow"@ + "); }\n"@);
    assert(" { return Err(OdError::ValueTooHigh); }\n"@ =~= " { return Err(OdError::"@
        + "ValueTooHigh"@ + "); }\n"@);
}

proof fn lemma_limit_line(
    limit: Seq<char>,
    guard: Seq<char>,
    order: Seq<char>,
    compare: Seq<char>,
    error: Seq<char>,
    refusal: Seq<char>,
    scalar: ScalarSpec,
    node_relative: bool,
    ctx: Seq<char>,
)
    requires
        compare == "v "@ + order + " "@,
        refusal == " { return Err(OdError::"@ + error + "); }\n"@,
    ensures
        limit_text(limit, guard, order, error, scalar, node_relative, ctx) matches Ok(line) ==> line
            == limit_line_of(limit, guard, compare, refusal, scalar, ctx),
        limit_text(limit, guard, order, error, scalar, node_relative, ctx) is Ok
            <==> limit_is_sound(limit, scalar, node_relative, ctx),
{
    if let Ok(line) = limit_text(limit, guard, order, error, scalar, node_relative, ctx) {
        assert(line =~= limit_line_of(limit, guard, compare, refusal, scalar, ctx));
    }
}

/// The value that an entry is initialized with: the device-specific one, and
/// the default where that is blank.
pub open spec fn configured_value(sub_obj: OdSubObject) -> Seq<char> {
    if trimmed(sub_obj.actual_value@).len() > 0 {
        sub_obj.actual_value@
    } else {
        sub_obj.default_value@
    }
}

/// Where errors of a sub-object are reported.
pub open spec fn place_of(index: u16, sub: u8, obj: OdObject) -> Seq<char> {
    sub_context(index, sub, obj)
}

/// One more field and one more arm in each method.
pub open spec fn grew_by(
    out: OutputSpec,
    after: OutputSpec,
    field: FieldSpec,
    info: Seq<char>,
    read: Seq<char>,
    write: Seq<char>,
) -> bool {
    &&& after.fields == out.fields.push(field)
    &&& after.info_arms == out.info_arms.push(info)
    &&& after.read_arms == out.read_arms.push(read)
    &&& after.write_arms == out.write_arms.push(write)
}

/// The names of data types that are no scalars.
proof fn lemma_other_types(scalar_name: Seq<char>)
    requires
        scalar_of(scalar_name) is Some,
    ensures
        scalar_name != "DOMAIN"@,
        scalar_name != "VISIBLE_STRING"@,
        scalar_name != "OCTET_STRING"@,
{
    reveal_strlit("DOMAIN");
    reveal_strlit("VISIBLE_STRING");
    reveal_strlit("OCTET_STRING");
    reveal_strlit("BOOLEAN");
    reveal_strlit("UNSIGNED8");
    reveal_strlit("UNSIGNED16");
    reveal_strlit("UNSIGNED32");
    reveal_strlit("UNSIGNED64");
    reveal_strlit("INTEGER8");
    reveal_strlit("INTEGER16");
    reveal_strlit("INTEGER32");
    reveal_strlit("INTEGER64");
    assert(scalar_name[0] == 'B' || scalar_name[0] == 'U' || scalar_name[0] == 'I');
    assert("DOMAIN"@[0] == 'D' && "VISIBLE_STRING"@[0] == 'V' && "OCTET_STRING"@[0] == 'O');
}

/// The code for a scalar sub-object: a field of the Rust integer type with
/// the configured value, metadata that repeats the description, a read arm
/// that gives the bytes of that very field where the description grants
/// reading, and a write arm that sets that very field, after the length and
/// the limits were checked, where it grants writing. Any other access is
/// refused.
pub proof fn law_scalar_entries_follow_the_description(
    out: OutputSpec,
    index: u16,
    sub: u8,
    obj: OdObject,
    sub_obj: OdSubObject,
    scalar: ScalarSpec,
    after: OutputSpec,
) -> (field: FieldSpec)
    requires
        any_sub(out, index, sub, obj, sub_obj) == Ok::<_, Seq<char>>(after),
        scalar_of(sub_obj.data_type@) == Some(scalar),
    ensures
        ({
            let ctx = place_of(index, sub, obj);
            let head = entry_head(index, sub);
            let init = int_init(configured_value(sub_obj), ctx);
            &&& sdo_rights(sub_obj.sdo@, ctx) is Ok
            &&& pdo_variant(sub_obj.pdo@, ctx) is Ok
            &&& init is Ok
            &&& field.type_decl == scalar.rust
            &&& init_text(init->Ok_0, scalar, ctx) == Ok::<_, Seq<char>>(field.init)
            &&& after.uses_node_id == (out.uses_node_id || init->Ok_0.plus_node_id)
            &&& !field_names(out).contains(field.name)
            &&& grew_by(
                out,
                after,
                field,
                metadata_arm(
                    head,
                    scalar.data_type,
                    sdo_rights(sub_obj.sdo@, ctx)->Ok_0.variant,
                    pdo_variant(sub_obj.pdo@, ctx)->Ok_0,
                    decimal(scalar.size),
                ),
                if grants(sub_obj.sdo@, 'R') {
                    head + " => od::read_bytes(buf, &self."@ + field.name + ".to_le_bytes()),"@
                } else {
                    head + " => Err(OdError::WriteOnly),"@
                },
                if grants(sub_obj.sdo@, 'W') {
                    head + " => {\n                let v = "@ + scalar.rust
                        + "::from_le_bytes(od::exact::<"@ + decimal(scalar.size)
                        + ">(data)?);\n"@ + limit_lines_of(sub_obj, Seq::empty(), scalar, ctx)
                        + "                self."@ + field.name
                        + " = v;\n                Ok(())\n            }"@
                } else {
                    head + " => Err(OdError::ReadOnly),"@
                },
            )
        }),
{
    reveal(any_sub);
    reveal_strlit("");
    assert(""@ =~= Seq::<char>::empty());
    lemma_other_types(sub_obj.data_type@);
    let ctx = place_of(index, sub, obj);
    law_patterns_name_the_object(index, sub, 0);
    law_sdo_rights_agree_with_the_description(sub_obj.sdo@, ctx);
    law_limits_are_checked_as_described(sub_obj, Seq::empty(), scalar, false, ctx);
    lemma_refusal_arms(entry_head(index, sub));
    let field = after.fields.last();
    let source = sub_source(obj, sub_obj);
    law_first_free_is_free(
        "x"@ + hex(index as nat, 4, false) + "_"@ + sanitized(source),
        field_names(out),
    );
    assert(field.name == unique_name(index, source, field_names(out)));
    field
}

/// The arms that refuse an access.
pub proof fn lemma_refusal_arms(head: Seq<char>)
    ensures
        error_arm(head, "WriteOnly"@) == head + " => Err(OdError::WriteOnly),"@,
        error_arm(head, "ReadOnly"@) == head + " => Err(OdError::ReadOnly),"@,
        error_arm(head, "NoData"@) == head + " => Err(OdError::NoData),"@,
{
    reveal_strlit(" => Err(OdError::");
    reveal_strlit("),");
    reveal_strlit("WriteOnly");
    reveal_strlit("ReadOnly");
    reveal_strlit("NoData");
    reveal_strlit(" => Err(OdError::WriteOnly),");
    reveal_strlit(" => Err(OdError::ReadOnly),");
    reveal_strlit(" => Err(OdError::NoData),");
    assert(error_arm(head, "WriteOnly"@) =~= head + " => Err(OdError::WriteOnly),"@);
    assert(error_arm(head, "ReadOnly"@) =~= head + " => Err(OdError::ReadOnly),"@);
    assert(error_arm(head, "NoData"@) =~= head + " => Err(OdError::NoData),"@);
}

/// The code for a string sub-object: a field with room for the configured
/// value and length that holds the bytes of the value, metadata whose size is
/// the current length, and arms that read and set that very field as the
/// description grants it.
pub proof fn law_string_entries_follow_the_description(
    out: OutputSpec,
    index: u16,
    sub: u8,
    obj: OdObject,
    sub_obj: OdSubObject,
    after: OutputSpec,
) -> (field: FieldSpec)
    requires
        any_sub(out, index, sub, obj, sub_obj) == Ok::<_, Seq<char>>(after),
        sub_obj.data_type@ == "VISIBLE_STRING"@ || sub_obj.data_type@ == "OCTET_STRING"@,
    ensures
        ({
            let ctx = place_of(index, sub, obj);
            let head = entry_head(index, sub);
            let bytes = vstd::utf8::encode_utf8(configured_value(sub_obj));
            &&& sdo_rights(sub_obj.sdo@, ctx) is Ok
            &&& pdo_variant(sub_obj.pdo@, ctx) is Ok
            &&& field.type_decl == "od::OdString<"@ + decimal(
                string_capacity(bytes.len(), sub_obj.string_length_min as nat),
            ) + ">"@
            &&& field.init == "od::OdString::new("@ + byte_string(bytes) + ")"@
            &&& after.uses_node_id == out.uses_node_id
            &&& !field_names(out).contains(field.name)
            &&& grew_by(
                out,
                after,
                field,
                metadata_arm(
                    head,
                    if sub_obj.data_type@ == "VISIBLE_STRING"@ {
                        "VisibleString"@
                    } else {
                        "OctetString"@
                    },
                    sdo_rights(sub_obj.sdo@, ctx)->Ok_0.variant,
                    pdo_variant(sub_obj.pdo@, ctx)->Ok_0,
                    "self."@ + field.name + ".len()"@,
                ),
                if grants(sub_obj.sdo@, 'R') {
                    head + " => od::read_bytes(buf, self."@ + field.name + ".as_bytes()),"@
                } else {
                    head + " => Err(OdError::WriteOnly),"@
                },
                if grants(sub_obj.sdo@, 'W') {
                    head + " => self."@ + field.name + ".set(data),"@
                } else {
                    head + " => Err(OdError::ReadOnly),"@
                },
            )
        }),
{
    reveal(any_sub);
    reveal_strlit("DOMAIN");
    reveal_strlit("VISIBLE_STRING");
    reveal_strlit("OCTET_STRING");
    assert("DOMAIN"@[0] == 'D' && "VISIBLE_STRING"@[0] == 'V' && "OCTET_STRING"@[0] == 'O');
    let ctx = place_of(index, sub, obj);
    law_patterns_name_the_object(index, sub, 0);
    law_sdo_rights_agree_with_the_description(sub_obj.sdo@, ctx);
    lemma_refusal_arms(entry_head(index, sub));
    let field = after.fields.last();
    let source = sub_source(obj, sub_obj);
    law_first_free_is_free(
        "x"@ + hex(index as nat, 4, false) + "_"@ + sanitized(source),
        field_names(out),
    );
    assert(field.name == unique_name(index, source, field_names(out)));
    field
}

/// The code for a DOMAIN sub-object: no field, metadata of size 0, and no
/// data to be read or written.
pub proof fn law_domain_entries_follow_the_description(
    out: OutputSpec,
    index: u16,
    sub: u8,
    obj: OdObject,
    sub_obj: OdSubObject,
    after: OutputSpec,
)
    requires
        any_sub(out, index, sub, obj, sub_obj) == Ok::<_, Seq<char>>(after),
        sub_obj.data_type@ == "DOMAIN"@,
    ensures
        ({
            let ctx = place_of(index, sub, obj);
            let head = entry_head(index, sub);
            &&& sdo_rights(sub_obj.sdo@, ctx) is Ok
            &&& pdo_variant(sub_obj.pdo@, ctx) is Ok
            &&& after.fields == out.fields
            &&& after.uses_node_id == out.uses_node_id
            &&& after.info_arms == out.info_arms.push(
                metadata_arm(
                    head,
                    "Domain"@,
                    sdo_rights(sub_obj.sdo@, ctx)->Ok_0.variant,
                    pdo_variant(sub_obj.pdo@, ctx)->Ok_0,
                    "0"@,
                ),
            )
            &&& after.read_arms == out.read_arms.push(head + " => Err(OdError::NoData),"@)
            &&& after.write_arms == out.write_arms.push(head + " => Err(OdError::NoData),"@)
        }),
{
    reveal(any_sub);
    law_patterns_name_the_object(index, sub, 0);
    lemma_refusal_arms(entry_head(index, sub));
}

/// A sub-object is generated exactly if its data type is known, its access
/// texts name rights, and, for a scalar, its value is a number of the type
/// and so are its limits, where they count: where the entry is writable.
pub proof fn law_sound_sub_objects_are_generated(
    out: OutputSpec,
    index: u16,
    sub: u8,
    obj: OdObject,
    sub_obj: OdSubObject,
)
    ensures
        any_sub(out, index, sub, obj, sub_obj) is Ok <==> {
            let ctx = place_of(index, sub, obj);
            let kind = sub_obj.data_type@;
            let init = int_init(configured_value(sub_obj), ctx);
            &&& sdo_rights(sub_obj.sdo@, ctx) is Ok
            &&& pdo_variant(sub_obj.pdo@, ctx) is Ok
            &&& {
                ||| kind == "DOMAIN"@
                ||| kind == "VISIBLE_STRING"@
                ||| kind == "OCTET_STRING"@
                ||| {
                    &&& scalar_of(kind) is Some
                    &&& init is Ok
                    &&& init_text(init->Ok_0, scalar_of(kind)->0, ctx) is Ok
                    &&& grants(sub_obj.sdo@, 'W') ==> limit_is_sound(
                        sub_obj.low_limit@,
                        scalar_of(kind)->0,
                        false,
                        ctx,
                    ) && limit_is_sound(sub_obj.high_limit@, scalar_of(kind)->0, false, ctx)
                }
            }
        },
{
    reveal(any_sub);
    let ctx = place_of(index, sub, obj);
    law_sdo_rights_agree_with_the_description(sub_obj.sdo@, ctx);
    if let Some(scalar) = scalar_of(sub_obj.data_type@) {
        reveal_strlit("");
        assert(""@ =~= Seq::<char>::empty());
        lemma_other_types(sub_obj.data_type@);
        law_limits_are_checked_as_described(sub_obj, Seq::empty(), scalar, false, ctx);
    }
}

} // verus!

//! Device descriptions: what their texts mean in generated code.

use crate::codegen::gen::string_capacity;
use crate::codegen::laws::lemma_numbers_read_back;
use crate::codegen::names::lower;
use crate::codegen::values::{access_label, debug_text, init_text, int_init, literal, node_offset};
use crate::codegen::values::{pdo_variant, plain_int, scalar_of, sdo_rights, InitSpec, ScalarSpec};
use crate::laws::number::{law_decimal_notation, law_hexadecimal_notation};
use crate::number::{is_hex, signed_value};
use crate::od::{PdoAccess, SdoAccess};
use crate::pdo::mappable;
use crate::text::{decimal, digits, has_prefix, hex, is_space, signed_decimal, trimmed};
use crate::text::trimmed_start;
use vstd::arithmetic::power::pow;
use vstd::prelude::*;

verus! {

/// The mapping capability that a path in generated code names.
pub open spec fn capability_named(path: Seq<char>) -> Option<PdoAccess> {
    if path == "PdoAccess::No"@ {
        Some(PdoAccess::No)
    } else if path == "PdoAccess::Rpdo"@ {
        Some(PdoAccess::Rpdo)
    } else if path == "PdoAccess::Tpdo"@ {
        Some(PdoAccess::Tpdo)
    } else if path == "PdoAccess::Both"@ {
        Some(PdoAccess::Both)
    } else {
        None
    }
}

/// The SDO access rights that a path in generated code names.
pub open spec fn rights_named(path: Seq<char>) -> Option<SdoAccess> {
    if path == "SdoAccess::No"@ {
        Some(SdoAccess::No)
    } else if path == "SdoAccess::ReadOnly"@ {
        Some(SdoAccess::ReadOnly)
    } else if path == "SdoAccess::WriteOnly"@ {
        Some(SdoAccess::WriteOnly)
    } else if path == "SdoAccess::ReadWrite"@ {
        Some(SdoAccess::ReadWrite)
    } else {
        None
    }
}

/// Whether an access text has the letter `c` after its prefix, `ACCESS_PDO_`
/// or `ACCESS_SDO_`.
pub open spec fn grants(raw: Seq<char>, c: char) -> bool {
    exists|i: int| 11 <= i < raw.len() && #[trigger] raw[i] == c
}

/// The mapping capability in the generated metadata is the one of the
/// description: the object can be mapped into TPDOs exactly if its access
/// text grants T, and into RPDOs exactly if it grants R.
pub proof fn law_pdo_capability_agrees_with_the_description(raw: Seq<char>, ctx: Seq<char>)
    ensures
        pdo_variant(raw, ctx) matches Ok(path) ==> {
            &&& capability_named(path) matches Some(pdo) && {
                &&& mappable(pdo, false) <==> grants(raw, 'T')
                &&& mappable(pdo, true) <==> grants(raw, 'R')
                &&& (pdo is Tpdo || pdo is Both) <==> grants(raw, 'T')
                &&& (pdo is Rpdo || pdo is Both) <==> grants(raw, 'R')
            }
        },
        pdo_variant(raw, ctx) is Ok <==> raw == ""@ || raw == "ACCESS_PDO_NO"@ || raw
            == "ACCESS_PDO_R"@ || raw == "ACCESS_PDO_T"@ || raw == "ACCESS_PDO_TR"@,
{
    reveal_strlit("");
    reveal_strlit("ACCESS_PDO_NO");
    reveal_strlit("ACCESS_PDO_R");
    reveal_strlit("ACCESS_PDO_T");
    reveal_strlit("ACCESS_PDO_TR");
    reveal_strlit("PdoAccess::No");
    reveal_strlit("PdoAccess::Rpdo");
    reveal_strlit("PdoAccess::Tpdo");
    reveal_strlit("PdoAccess::Both");
    let (no, r, t, both) = (
        "PdoAccess::No"@,
        "PdoAccess::Rpdo"@,
        "PdoAccess::Tpdo"@,
        "PdoAccess::Both"@,
    );
    assert(no[11] == 'N' && r[11] == 'R' && t[11] == 'T' && both[11] == 'B');
    let (a, b, c, d) = (
        "ACCESS_PDO_NO"@,
        "ACCESS_PDO_R"@,
        "ACCESS_PDO_T"@,
        "ACCESS_PDO_TR"@,
    );
    assert(a.len() == 13 && a[11] == 'N' && a[12] == 'O');
    assert(b.len() == 12 && b[11] == 'R' && c.len() == 12 && c[11] == 'T');
    assert(d.len() == 13 && d[11] == 'T' && d[12] == 'R');
}

/// The access rights in the generated metadata, and the accesses that the
/// generated code grants, are those of the description: reading exactly if
/// the access text grants R, writing exactly if it grants W. The
/// documentation shows the same two letters in lower case.
pub proof fn law_sdo_rights_agree_with_the_description(raw: Seq<char>, ctx: Seq<char>)
    ensures
        sdo_rights(raw, ctx) matches Ok(rights) ==> {
            &&& rights.readable <==> grants(raw, 'R')
            &&& rights.writable <==> grants(raw, 'W')
            &&& rights_named(rights.variant) matches Some(sdo) && {
                &&& sdo.spec_readable() <==> grants(raw, 'R')
                &&& sdo.spec_writable() <==> grants(raw, 'W')
                &&& (sdo is ReadOnly || sdo is ReadWrite) <==> grants(raw, 'R')
                &&& (sdo is WriteOnly || sdo is ReadWrite) <==> grants(raw, 'W')
            }
            &&& raw.len() > 0 ==> access_label(raw) == seq![lower(raw[11]), lower(raw[12])]
        },
        sdo_rights(raw, ctx) is Ok <==> raw == ""@ || raw == "ACCESS_SDO_NO"@ || raw
            == "ACCESS_SDO_RO"@ || raw == "ACCESS_SDO_WO"@ || raw == "ACCESS_SDO_RW"@,
{
    reveal_strlit("");
    reveal_strlit("ACCESS_SDO_NO");
    reveal_strlit("ACCESS_SDO_RO");
    reveal_strlit("ACCESS_SDO_WO");
    reveal_strlit("ACCESS_SDO_RW");
    reveal_strlit("SdoAccess::No");
    reveal_strlit("SdoAccess::ReadOnly");
    reveal_strlit("SdoAccess::WriteOnly");
    reveal_strlit("SdoAccess::ReadWrite");
    reveal_strlit("no");
    reveal_strlit("ro");
    reveal_strlit("wo");
    reveal_strlit("rw");
    let (no, r, w, both) = (
        "SdoAccess::No"@,
        "SdoAccess::ReadOnly"@,
        "SdoAccess::WriteOnly"@,
        "SdoAccess::ReadWrite"@,
    );
    assert(no[11] == 'N' && r[11] == 'R' && w[11] == 'W' && both[11] == 'R');
    assert(r[15] == 'O' && both[15] == 'W');
    let (a, b, c, d) = (
        "ACCESS_SDO_NO"@,
        "ACCESS_SDO_RO"@,
        "ACCESS_SDO_WO"@,
        "ACCESS_SDO_RW"@,
    );
    assert(a.len() == 13 && a[11] == 'N' && a[12] == 'O');
    assert(b.len() == 13 && b[11] == 'R' && b[12] == 'O');
    assert(c.len() == 13 && c[11] == 'W' && c[12] == 'O');
    assert(d.len() == 13 && d[11] == 'R' && d[12] == 'W');
    assert("no"@ =~= seq!['n', 'o'] && "ro"@ =~= seq!['r', 'o']);
    assert("wo"@ =~= seq!['w', 'o'] && "rw"@ =~= seq!['r', 'w']);
}

/// The numbers of bits of the scalar types.
proof fn lemma_bits()
    ensures
        decimal(8) == seq!['8'],
        decimal(16) == seq!['1', '6'],
        decimal(32) == seq!['3', '2'],
        decimal(64) == seq!['6', '4'],
{
    reveal_with_fuel(digits, 3);
    assert(decimal(8) =~= seq!['8']);
    assert(decimal(16) =~= seq!['1', '6']);
    assert(decimal(32) =~= seq!['3', '2']);
    assert(decimal(64) =~= seq!['6', '4']);
}

/// The texts of the scalar types.
proof fn lemma_scalar_texts()
    ensures
        "UNSIGNED8"@ == "UNSIGNED"@ + seq!['8'],
        "UNSIGNED16"@ == "UNSIGNED"@ + seq!['1', '6'],
        "UNSIGNED32"@ == "UNSIGNED"@ + seq!['3', '2'],
        "UNSIGNED64"@ == "UNSIGNED"@ + seq!['6', '4'],
        "INTEGER8"@ == "INTEGER"@ + seq!['8'],
        "INTEGER16"@ == "INTEGER"@ + seq!['1', '6'],
        "INTEGER32"@ == "INTEGER"@ + seq!['3', '2'],
        "INTEGER64"@ == "INTEGER"@ + seq!['6', '4'],
        "Unsigned8"@ == "Unsigned"@ + seq!['8'],
        "Unsigned16"@ == "Unsigned"@ + seq!['1', '6'],
        "Unsigned32"@ == "Unsigned"@ + seq!['3', '2'],
        "Unsigned64"@ == "Unsigned"@ + seq!['6', '4'],
        "Integer8"@ == "Integer"@ + seq!['8'],
        "Integer16"@ == "Integer"@ + seq!['1', '6'],
        "Integer32"@ == "Integer"@ + seq!['3', '2'],
        "Integer64"@ == "Integer"@ + seq!['6', '4'],
        "u8"@ == seq!['u'] + seq!['8'],
        "u16"@ == seq!['u'] + seq!['1', '6'],
        "u32"@ == seq!['u'] + seq!['3', '2'],
        "u64"@ == seq!['u'] + seq!['6', '4'],
        "i8"@ == seq!['i'] + seq!['8'],
        "i16"@ == seq!['i'] + seq!['1', '6'],
        "i32"@ == seq!['i'] + seq!['3', '2'],
        "i64"@ == seq!['i'] + seq!['6', '4'],
{
    reveal_strlit("UNSIGNED");
    reveal_strlit("UNSIGNED8");
    reveal_strlit("UNSIGNED16");
    reveal_strlit("UNSIGNED32");
    reveal_strlit("UNSIGNED64");
    reveal_strlit("INTEGER");
    reveal_strlit("INTEGER8");
    reveal_strlit("INTEGER16");
    reveal_strlit("INTEGER32");
    reveal_strlit("INTEGER64");
    reveal_strlit("Unsigned");
    reveal_strlit("Unsigned8");
    reveal_strlit("Unsigned16");
    reveal_strlit("Unsigned32");
    reveal_strlit("Unsigned64");
    reveal_strlit("Integer");
    reveal_strlit("Integer8");
    reveal_strlit("Integer16");
    reveal_strlit("Integer32");
    reveal_strlit("Integer64");
    reveal_strlit("u8");
    reveal_strlit("u16");
    reveal_strlit("u32");
    reveal_strlit("u64");
    reveal_strlit("i8");
    reveal_strlit("i16");
    reveal_strlit("i32");
    reveal_strlit("i64");
}

/// A scalar type is stored in the Rust integer of its own signedness and
/// number of bits, its metadata names it, and its size is that number of
/// bits in bytes. A BOOLEAN is an unsigned byte.
pub proof fn law_scalar_types_agree_with_their_names(name: Seq<char>)
    ensures
        scalar_of(name) matches Some(scalar) ==> {
            let bits = decimal(8 * scalar.size);
            &&& scalar.size == 1 || scalar.size == 2 || scalar.size == 4 || scalar.size == 8
            &&& scalar.rust == (if scalar.signed {
                seq!['i']
            } else {
                seq!['u']
            }) + bits
            &&& name == "BOOLEAN"@ ==> {
                &&& scalar.size == 1
                &&& !scalar.signed
                &&& scalar.data_type == "Boolean"@
            }
            &&& name != "BOOLEAN"@ ==> {
                &&& name == (if scalar.signed {
                    "INTEGER"@
                } else {
                    "UNSIGNED"@
                }) + bits
                &&& scalar.data_type == (if scalar.signed {
                    "Integer"@
                } else {
                    "Unsigned"@
                }) + bits
            }
        },
{
    lemma_bits();
    lemma_scalar_texts();
}

/// The names of the scalar types are all different.
proof fn lemma_scalar_names_differ()
    ensures
        scalar_of("BOOLEAN"@) is Some,
        scalar_of("UNSIGNED8"@) is Some && scalar_of("UNSIGNED16"@) is Some,
        scalar_of("UNSIGNED32"@) is Some && scalar_of("UNSIGNED64"@) is Some,
        scalar_of("INTEGER8"@) is Some && scalar_of("INTEGER16"@) is Some,
        scalar_of("INTEGER32"@) is Some && scalar_of("INTEGER64"@) is Some,
{
}

/// Every integer type of 8, 16, 32 or 64 bits, of either signedness, is a
/// scalar type, and so is BOOLEAN.
pub proof fn law_all_integer_types_are_supported(size: nat)
    requires
        size == 1 || size == 2 || size == 4 || size == 8,
    ensures
        scalar_of("UNSIGNED"@ + decimal(8 * size)) is Some,
        scalar_of("INTEGER"@ + decimal(8 * size)) is Some,
        scalar_of("BOOLEAN"@) is Some,
{
    lemma_bits();
    lemma_scalar_texts();
    lemma_scalar_names_differ();
}

/// A literal is accepted exactly if the value fits the type: the type has as
/// many values as its bytes have, starting at 0 or, if it is signed, in the
/// middle below 0.
pub proof fn law_literals_fit_their_type(base: int, scalar: ScalarSpec, ctx: Seq<char>)
    requires
        scalar.size == 1 || scalar.size == 2 || scalar.size == 4 || scalar.size == 8,
    ensures
        literal(base, scalar, ctx) is Ok <==> if scalar.signed {
            -pow(256, scalar.size) <= 2 * base < pow(256, scalar.size)
        } else {
            0 <= base < pow(256, scalar.size)
        },
{
    assert(pow(256, 1) == 0x100 && pow(256, 2) == 0x1_0000 && pow(256, 4) == 0x1_0000_0000
        && pow(256, 8) == 0x1_0000_0000_0000_0000) by {
        reveal(pow);
        reveal_with_fuel(pow, 9);
    }
}

/// An initializer is the literal of its value; one that is relative to the
/// node id has the id added, in the type of the field.
pub proof fn law_initializer_adds_the_node_id(init: InitSpec, scalar: ScalarSpec, ctx: Seq<char>)
    ensures
        init_text(init, scalar, ctx) is Ok <==> literal(init.base, scalar, ctx) is Ok,
        init_text(init, scalar, ctx) matches Ok(text) ==> text == literal(
            init.base,
            scalar,
            ctx,
        )->Ok_0 + (if init.plus_node_id {
            " + node_id.raw() as "@ + scalar.rust
        } else {
            Seq::empty()
        }),
{
    if init_text(init, scalar, ctx) is Ok {
        let lit = literal(init.base, scalar, ctx)->Ok_0;
        assert(lit + Seq::<char>::empty() =~= lit);
        assert(lit + " + node_id.raw() as "@ + scalar.rust =~= lit + (" + node_id.raw() as "@
            + scalar.rust));
    }
}

/// A text without space at either end is not trimmed.
proof fn lemma_nothing_to_trim(s: Seq<char>)
    requires
        s.len() > 0,
        !is_space(s[0]),
        !is_space(s.last()),
    ensures
        trimmed(s) == s,
{
}

/// Trimming does not care for a space at the end.
proof fn lemma_trim_space_at_end(s: Seq<char>, c: char)
    requires
        is_space(c),
    ensures
        trimmed(s.push(c)) == trimmed(s),
    decreases s.len(),
{
    let drop = |c: char| is_space(c);
    if s.len() > 0 && is_space(s[0]) {
        assert(s.push(c).skip(1) =~= s.skip(1).push(c));
        lemma_trim_space_at_end(s.skip(1), c);
        assert(trimmed_start(s.push(c), drop) == trimmed_start(s.skip(1).push(c), drop));
        assert(trimmed_start(s, drop) == trimmed_start(s.skip(1), drop));
    } else if s.len() > 0 {
        assert(s.push(c).drop_last() =~= s);
        assert(trimmed_start(s.push(c), drop) == s.push(c));
        assert(trimmed_start(s, drop) == s);
    } else {
        assert(s.push(c).skip(1) =~= s);
        assert(trimmed_start(s.push(c), drop) == trimmed_start(s, drop));
    }
}

/// Space around an initializer does not matter.
pub proof fn law_space_around_initializers_does_not_matter(s: Seq<char>, c: char, ctx: Seq<char>)
    requires
        is_space(c),
    ensures
        int_init(s.push(c), ctx) == int_init(s, ctx),
        int_init(seq![c] + s, ctx) == int_init(s, ctx),
{
    lemma_trim_space_at_end(s, c);
    assert((seq![c] + s).skip(1) =~= s);
    let drop = |c: char| is_space(c);
    assert(trimmed_start(seq![c] + s, drop) == trimmed_start(s, drop));
}

/// A text of digits, signs and prefixes of numbers has no space in it, and it
/// is not relative to the node id.
proof fn lemma_number_text(s: Seq<char>)
    requires
        s.len() > 0,
        forall|i: int|
            0 <= i < s.len() ==> {
                let c = #[trigger] s[i];
                '0' <= c <= '9' || 'A' <= c <= 'F' || 'a' <= c <= 'f' || c == 'x' || c == '-'
            },
    ensures
        trimmed(s) == s,
        !has_prefix(s, "$NODEID"@),
        s[0] != '+',
        !is_space(s[0]) && !is_space(s.last()),
{
    reveal_strlit("$NODEID");
    lemma_nothing_to_trim(s);
    if has_prefix(s, "$NODEID"@) {
        assert(s.take(7)[0] == s[0]);
    }
}

/// An initializer in decimal or hexadecimal notation is its number, and
/// nothing at all is 0.
pub proof fn law_initializers_denote_their_number(v: int, ctx: Seq<char>)
    requires
        -0x8000_0000_0000_0000 <= v <= 0xFFFF_FFFF_FFFF_FFFF,
    ensures
        int_init(signed_decimal(v), ctx) == Ok::<_, Seq<char>>(
            InitSpec { base: v, plus_node_id: false },
        ),
        v >= 0 ==> int_init("0x"@ + hex(v as nat, 0, true), ctx) == Ok::<_, Seq<char>>(
            InitSpec { base: v, plus_node_id: false },
        ),
        int_init(Seq::empty(), ctx) == Ok::<_, Seq<char>>(
            InitSpec { base: 0, plus_node_id: false },
        ),
{
    reveal_strlit("-");
    reveal_strlit("0x");
    lemma_numbers_read_back(v, ctx);
    let magnitude: nat = if v < 0 {
        (-v) as nat
    } else {
        v as nat
    };
    law_decimal_notation(magnitude);
    lemma_number_text(signed_decimal(v));
    if v >= 0 {
        law_hexadecimal_notation(v as nat, 0, true);
        lemma_number_text("0x"@ + hex(v as nat, 0, true));
    }
    assert(trimmed(Seq::empty()).len() == 0);
}

/// `$NODEID` alone is the node id, and `$NODEID+` before a number in either
/// notation is that number above it.
pub proof fn law_node_relative_initializers(v: nat, ctx: Seq<char>)
    requires
        v <= 0xFFFF_FFFF_FFFF_FFFF,
    ensures
        int_init("$NODEID"@, ctx) == Ok::<_, Seq<char>>(InitSpec { base: 0, plus_node_id: true }),
        int_init("$NODEID+"@ + decimal(v), ctx) == Ok::<_, Seq<char>>(
            InitSpec { base: v as int, plus_node_id: true },
        ),
        int_init("$NODEID+0x"@ + hex(v, 0, true), ctx) == Ok::<_, Seq<char>>(
            InitSpec { base: v as int, plus_node_id: true },
        ),
{
    reveal_strlit("$NODEID");
    reveal_strlit("$NODEID+");
    reveal_strlit("$NODEID+0x");
    reveal_strlit("0x");
    lemma_numbers_read_back(v as int, ctx);
    law_decimal_notation(v);
    law_hexadecimal_notation(v, 0, true);
    let plus = |c: char| c == '+';
    let mark = "$NODEID"@;
    lemma_nothing_to_trim(mark);
    assert(mark.take(7) =~= mark && mark.skip(7) =~= Seq::<char>::empty());
    assert(node_offset(mark).len() == 0);
    let d = decimal(v);
    let s = "$NODEID+"@ + d;
    lemma_number_text(d);
    lemma_offset(s, d);
    let h = "0x"@ + hex(v, 0, true);
    let t = "$NODEID+0x"@ + hex(v, 0, true);
    lemma_number_text(h);
    assert(t =~= "$NODEID+"@ + h);
    lemma_offset(t, h);
    assert(signed_decimal(v as int) == d);
}

/// What stands after `$NODEID+`.
proof fn lemma_offset(s: Seq<char>, number: Seq<char>)
    requires
        s == "$NODEID+"@ + number,
        number.len() > 0,
        trimmed(number) == number,
        number[0] != '+',
        !is_space(number[0]) && !is_space(number.last()),
    ensures
        trimmed(s) == s,
        has_prefix(s, "$NODEID"@),
        node_offset(s) == number,
{
    reveal_strlit("$NODEID");
    reveal_strlit("$NODEID+");
    let plus = |c: char| c == '+';
    assert(s[0] == '$' && s.last() == number.last());
    lemma_nothing_to_trim(s);
    assert(s.take(7) =~= "$NODEID"@);
    let rest = s.skip(7);
    assert(rest[0] == '+' && rest.last() == number.last());
    lemma_nothing_to_trim(rest);
    assert(rest.skip(1) =~= number);
    assert(trimmed_start(rest, plus) == trimmed_start(number, plus));
    assert(trimmed_start(number, plus) == number);
}

/// An integer in a description is hexadecimal exactly if it starts with `0x`
/// or `0X`, and a signed number of up to 128 bits in either notation; nothing
/// else is an integer.
pub proof fn law_integers_are_signed_numbers(s: Seq<char>, ctx: Seq<char>, v: int)
    ensures
        plain_int(seq!['0', 'x'] + s, ctx) == Ok::<int, Seq<char>>(v) <==> signed_value(s, 16)
            == Some(v),
        plain_int(seq!['0', 'X'] + s, ctx) == Ok::<int, Seq<char>>(v) <==> signed_value(s, 16)
            == Some(v),
        s.len() < 2 || s[0] != '0' || (s[1] != 'x' && s[1] != 'X') ==> (plain_int(s, ctx) == Ok::<
            int,
            Seq<char>,
        >(v) <==> signed_value(s, 10) == Some(v)),
{
    reveal_strlit("0x");
    reveal_strlit("0X");
    let a = seq!['0', 'x'] + s;
    let b = seq!['0', 'X'] + s;
    assert(a.take(2) =~= "0x"@ && a.skip(2) =~= s);
    assert(b.take(2) =~= "0X"@ && b.skip(2) =~= s);
    if is_hex(s) {
        assert(s.take(2)[0] == s[0] && s.take(2)[1] == s[1]);
    }
}

/// A value that is neither blank nor relative to the node id is the integer
/// that it spells without the space around it, or refused if it spells none.
pub proof fn law_plain_values_are_integers(s: Seq<char>, ctx: Seq<char>, v: int)
    requires
        trimmed(s).len() > 0,
        trimmed(s)[0] != '$',
    ensures
        int_init(s, ctx) == Ok::<_, Seq<char>>(InitSpec { base: v, plus_node_id: false })
            <==> plain_int(trimmed(s), ctx) == Ok::<int, Seq<char>>(v),
        int_init(s, ctx) is Ok <==> plain_int(trimmed(s), ctx) is Ok,
{
    reveal_strlit("$NODEID");
    if has_prefix(trimmed(s), "$NODEID"@) {
        assert(trimmed(s).take(7)[0] == trimmed(s)[0]);
    }
}

/// Space around the plus sign of a value that is relative to the node id does
/// not matter.
pub proof fn law_space_around_the_plus_does_not_matter(v: nat, c: char, ctx: Seq<char>)
    requires
        v <= 0xFFFF_FFFF_FFFF_FFFF,
        is_space(c),
    ensures
        int_init("$NODEID"@ + seq![c, '+', c] + decimal(v), ctx) == Ok::<_, Seq<char>>(
            InitSpec { base: v as int, plus_node_id: true },
        ),
{
    reveal_strlit("$NODEID");
    lemma_numbers_read_back(v as int, ctx);
    law_decimal_notation(v);
    let d = decimal(v);
    lemma_number_text(d);
    assert(signed_decimal(v as int) == d);
    let s = "$NODEID"@ + seq![c, '+', c] + d;
    let space = |c: char| is_space(c);
    let plus = |c: char| c == '+';
    assert(s[0] == '$' && s.last() == d.last());
    lemma_nothing_to_trim(s);
    assert(s.take(7) =~= "$NODEID"@);
    let rest = s.skip(7);
    let inner = seq!['+', c] + d;
    assert(rest.skip(1) =~= inner);
    assert(rest[0] == c);
    assert(inner[0] == '+' && inner.last() == d.last());
    lemma_nothing_to_trim(inner);
    assert(trimmed_start(rest, space) == trimmed_start(inner, space));
    assert(trimmed(rest) == inner);
    let tail = seq![c] + d;
    assert(inner.skip(1) =~= tail);
    assert(tail[0] == c && c != '+');
    assert(trimmed_start(inner, plus) == trimmed_start(tail, plus));
    assert(trimmed_start(tail, plus) == tail);
    assert(tail.skip(1) =~= d);
    assert(trimmed_start(tail, space) == trimmed_start(d, space));
    assert(node_offset(s) == d);
}

/// A refusal names the place in the description and repeats what is wrong
/// there: the text of an unknown access or integer, or the number that does
/// not fit and the type that it does not fit.
pub proof fn law_refusals_name_the_place(
    raw: Seq<char>,
    base: int,
    scalar: ScalarSpec,
    ctx: Seq<char>,
)
    ensures
        pdo_variant(raw, ctx) matches Err(e) ==> e == ctx + ": unknown PDO access "@ + debug_text(
            raw,
        ),
        sdo_rights(raw, ctx) matches Err(e) ==> e == ctx + ": unknown SDO access "@ + debug_text(
            raw,
        ),
        plain_int(raw, ctx) matches Err(e) ==> e == ctx + ": cannot parse integer value "@
            + debug_text(raw),
        literal(base, scalar, ctx) matches Err(e) ==> e == ctx + ": value "@ + signed_decimal(base)
            + " out of range for "@ + scalar.rust,
{
}

/// The room of a string entry is the larger of its initial value and its
/// configured length, and at least one byte.
pub proof fn law_string_room_is_the_larger(init: nat, configured: nat)
    ensures
        string_capacity(init, configured) >= init,
        string_capacity(init, configured) >= configured,
        string_capacity(init, configured) >= 1,
        string_capacity(init, configured) == init || string_capacity(init, configured)
            == configured || string_capacity(init, configured) == 1,
{
}

} // verus!

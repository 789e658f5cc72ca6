//! Generated modules: nothing that was generated is lost in the text.

use crate::codegen::gen::{generated, objects_output, FieldSpec, OutputSpec};
use crate::codegen::laws::is_part_of;
use crate::codegen::model::CanOpenDevice;
use crate::codegen::names::{byte_string, escaped_byte, escaped_bytes, fragment, is_alphanumeric};
use crate::codegen::names::{lower, sanitized, without_end_mark};
use crate::codegen::render::{arm_lines, constructor_text, count_lines, dictionary_text};
use crate::codegen::render::{field_lines, header, init_lines, method, module_text, struct_text};
use crate::laws::number::{law_hexadecimal_notation, law_hexadecimal_width};
use crate::number::digits_value;
use crate::text::{decimal, hex};
use vstd::arithmetic::power::pow;
use vstd::prelude::*;

verus! {

/// Each field has one declaration and one initializer, each match arm one
/// line, and each label one constant, in the order in which they were
/// generated.
pub proof fn law_every_part_has_its_line(
    fields: Seq<FieldSpec>,
    field: FieldSpec,
    arms: Seq<Seq<char>>,
    arm: Seq<char>,
    counts: Seq<(Seq<char>, nat)>,
    label: Seq<char>,
    count: nat,
)
    ensures
        field_lines(Seq::empty()) == Seq::<char>::empty(),
        field_lines(fields.push(field)) == field_lines(fields) + "    /// "@ + field.doc
            + "\n    pub "@ + field.name + ": "@ + field.type_decl + ",\n"@,
        init_lines(Seq::empty()) == Seq::<char>::empty(),
        init_lines(fields.push(field)) == init_lines(fields) + "            "@ + field.name + ": "@
            + field.init + ",\n"@,
        arm_lines(Seq::empty()) == Seq::<char>::empty(),
        arm_lines(arms.push(arm)) == arm_lines(arms) + "            "@ + arm + "\n"@,
        count_lines(Seq::empty()) == Seq::<char>::empty(),
        count_lines(counts.push((label, count))) == count_lines(counts)
            + "/// Number of enabled OD objects labelled "@ + label + " (`OD_CNT_"@ + label
            + "`).\npub const CNT_"@ + label + ": u8 = "@ + decimal(count) + ";\n"@,
{
    assert(fields.push(field).drop_last() =~= fields);
    assert(arms.push(arm).drop_last() =~= arms);
    assert(counts.push((label, count)).drop_last() =~= counts);
    assert(field_lines(fields.push(field)) =~= field_lines(fields) + "    /// "@ + field.doc
        + "\n    pub "@ + field.name + ": "@ + field.type_decl + ",\n"@);
    assert(init_lines(fields.push(field)) =~= init_lines(fields) + "            "@ + field.name
        + ": "@ + field.init + ",\n"@);
    assert(arm_lines(arms.push(arm)) =~= arm_lines(arms) + "            "@ + arm + "\n"@);
    assert(count_lines(counts.push((label, count))) =~= count_lines(counts)
        + "/// Number of enabled OD objects labelled "@ + label + " (`OD_CNT_"@ + label
        + "`).\npub const CNT_"@ + label + ": u8 = "@ + decimal(count) + ";\n"@);
}

/// A module consists of a head with the device name, the constants, the
/// struct with its fields, the constructor with their initializers, and the
/// three methods with their arms: metadata, reads and writes, each under its
/// own signature and closed by the arm for an object that does not exist.
pub proof fn law_modules_hold_all_parts(
    name: Seq<char>,
    out: OutputSpec,
    counts: Seq<(Seq<char>, nat)>,
)
    ensures
        ({
            let module = module_text(name, out, counts);
            let info = "    fn info(&self, index: u16, sub: u8) -> Result<EntryInfo, OdError> {\n"@;
            let read =
                "    fn read(&self, index: u16, sub: u8, buf: &mut [u8]) -> Result<usize, OdError> {\n"@;
            let write =
                "    fn write(&mut self, index: u16, sub: u8, data: &[u8]) -> Result<(), OdError> {\n"@;
            &&& is_part_of(whole_method(info, out.info_arms), module)
            &&& is_part_of(whole_method(read, out.read_arms), module)
            &&& is_part_of(whole_method(write, out.write_arms), module)
            &&& is_part_of("pub struct Od {\n"@ + field_lines(out.fields) + "}\n"@, module)
            &&& is_part_of(whole_constructor(out.fields, out.uses_node_id), module)
            &&& is_part_of(count_lines(counts), module)
            &&& is_part_of(device_line(name), module)
        }),
{
    let module = module_text(name, out, counts);
    lemma_methods(out);
    lemma_struct(out.fields);
    lemma_constructor(out.fields, out.uses_node_id);
    lemma_header(name);
    let h = header(name);
    let c = count_lines(counts);
    let s = struct_text(out.fields);
    let k = constructor_text(out.fields, out.uses_node_id);
    let d = dictionary_text(out);
    let none = Seq::<char>::empty();
    assert(module == h + c + s + k + d);
    assert(module =~= none + h + (c + s + k + d));
    lemma_part_between(none, h, c + s + k + d);
    assert(module =~= h + c + (s + k + d));
    lemma_part_between(h, c, s + k + d);
    assert(module =~= (h + c) + s + (k + d));
    lemma_part_between(h + c, s, k + d);
    lemma_part_between(h + c + s, k, d);
    assert(module =~= (h + c + s + k) + d + none);
    lemma_part_between(h + c + s + k, d, none);
    let info = "    fn info(&self, index: u16, sub: u8) -> Result<EntryInfo, OdError> {\n"@;
    let read =
        "    fn read(&self, index: u16, sub: u8, buf: &mut [u8]) -> Result<usize, OdError> {\n"@;
    let write =
        "    fn write(&mut self, index: u16, sub: u8, data: &[u8]) -> Result<(), OdError> {\n"@;
    lemma_part_of_part(whole_method(info, out.info_arms), d, module);
    lemma_part_of_part(whole_method(read, out.read_arms), d, module);
    lemma_part_of_part(whole_method(write, out.write_arms), d, module);
    lemma_part_of_part("pub struct Od {\n"@ + field_lines(out.fields) + "}\n"@, s, module);
    lemma_part_of_part(whole_constructor(out.fields, out.uses_node_id), k, module);
    lemma_part_of_part(device_line(name), h, module);
}

/// A method from its signature line to its end.
pub open spec fn whole_method(signature: Seq<char>, arms: Seq<Seq<char>>) -> Seq<char> {
    signature + "        match (index, sub) {\n"@ + arm_lines(arms)
        + "            _ => Err(OdError::ObjectNotFound),\n        }\n    }\n\n"@
}

/// The constructor from its signature to the end of the impl.
pub open spec fn whole_constructor(fields: Seq<FieldSpec>, uses_node_id: bool) -> Seq<char> {
    "    pub fn new("@ + (if uses_node_id {
        "node_id"@
    } else {
        "_node_id"@
    }) + ": NodeId) -> Self {\n        Self {\n"@ + init_lines(fields)
        + "        }\n    }\n}\n"@
}

/// The line that names the device.
pub open spec fn device_line(name: Seq<char>) -> Seq<char> {
    "// Device: "@ + (if name.len() == 0 {
        "unnamed device"@
    } else {
        name
    }) + "\n"@
}

proof fn lemma_part_between(before: Seq<char>, part: Seq<char>, after: Seq<char>)
    ensures
        is_part_of(part, before + part + after),
{
}

proof fn lemma_part_of_part(a: Seq<char>, b: Seq<char>, c: Seq<char>)
    requires
        is_part_of(a, b),
        is_part_of(b, c),
    ensures
        is_part_of(a, c),
{
    let (u, v) = choose|u: Seq<char>, v: Seq<char>| b == #[trigger] (u + a + v);
    let (x, y) = choose|x: Seq<char>, y: Seq<char>| c == #[trigger] (x + b + y);
    assert(c =~= (x + u) + a + (v + y));
}

proof fn lemma_methods(out: OutputSpec)
    ensures
        ({
            let d = dictionary_text(out);
            let info = "    fn info(&self, index: u16, sub: u8) -> Result<EntryInfo, OdError> {\n"@;
            let read =
                "    fn read(&self, index: u16, sub: u8, buf: &mut [u8]) -> Result<usize, OdError> {\n"@;
            let write =
                "    fn write(&mut self, index: u16, sub: u8, data: &[u8]) -> Result<(), OdError> {\n"@;
            &&& is_part_of(whole_method(info, out.info_arms), d)
            &&& is_part_of(whole_method(read, out.read_arms), d)
            &&& is_part_of(whole_method(write, out.write_arms), d)
        }),
{
    let a = "fn info(&self, index: u16, sub: u8) -> Result<EntryInfo, OdError>"@;
    let b = "fn read(&self, index: u16, sub: u8, buf: &mut [u8]) -> Result<usize, OdError>"@;
    let c = "fn write(&mut self, index: u16, sub: u8, data: &[u8]) -> Result<(), OdError>"@;
    lemma_signatures();
    lemma_method(a, out.info_arms);
    lemma_method(b, out.read_arms);
    lemma_method(c, out.write_arms);
    let head =
        "#[allow(clippy::unreadable_literal, clippy::match_same_arms, clippy::too_many_lines)]\nimpl ObjectDictionary for Od {\n"@;
    let x = method(a, out.info_arms);
    let y = method(b, out.read_arms);
    let z = method(c, out.write_arms);
    let tail = "}\n"@;
    let d = dictionary_text(out);
    assert(d == head + x + y + z + tail);
    assert(d =~= head + x + (y + z + tail));
    lemma_part_between(head, x, y + z + tail);
    assert(d =~= (head + x) + y + (z + tail));
    lemma_part_between(head + x, y, z + tail);
    lemma_part_between(head + x + y, z, tail);
}

/// A method is its signature line and what follows it.
proof fn lemma_method(signature: Seq<char>, arms: Seq<Seq<char>>)
    ensures
        method(signature, arms) == whole_method("    "@ + signature + " {\n"@, arms),
{
    reveal_strlit(" {\n        match (index, sub) {\n");
    reveal_strlit(" {\n");
    reveal_strlit("        match (index, sub) {\n");
    assert(" {\n        match (index, sub) {\n"@ =~= " {\n"@ + "        match (index, sub) {\n"@);
    assert(method(signature, arms) =~= whole_method("    "@ + signature + " {\n"@, arms));
}

proof fn lemma_signatures()
    ensures
        "    fn info(&self, index: u16, sub: u8) -> Result<EntryInfo, OdError> {\n"@ == "    "@
            + "fn info(&self, index: u16, sub: u8) -> Result<EntryInfo, OdError>"@ + " {\n"@,
        "    fn read(&self, index: u16, sub: u8, buf: &mut [u8]) -> Result<usize, OdError> {\n"@
            == "    "@
            + "fn read(&self, index: u16, sub: u8, buf: &mut [u8]) -> Result<usize, OdError>"@
            + " {\n"@,
        "    fn write(&mut self, index: u16, sub: u8, data: &[u8]) -> Result<(), OdError> {\n"@
            == "    "@
            + "fn write(&mut self, index: u16, sub: u8, data: &[u8]) -> Result<(), OdError>"@
            + " {\n"@,
{
    reveal_strlit("    ");
    reveal_strlit(" {\n");
    reveal_strlit("    fn info(&self, index: u16, sub: u8) -> Result<EntryInfo, OdError> {\n");
    reveal_strlit("fn info(&self, index: u16, sub: u8) -> Result<EntryInfo, OdError>");
    reveal_strlit(
        "    fn read(&self, index: u16, sub: u8, buf: &mut [u8]) -> Result<usize, OdError> {\n",
    );
    reveal_strlit("fn read(&self, index: u16, sub: u8, buf: &mut [u8]) -> Result<usize, OdError>");
    reveal_strlit(
        "    fn write(&mut self, index: u16, sub: u8, data: &[u8]) -> Result<(), OdError> {\n",
    );
    reveal_strlit("fn write(&mut self, index: u16, sub: u8, data: &[u8]) -> Result<(), OdError>");
    assert("    fn info(&self, index: u16, sub: u8) -> Result<EntryInfo, OdError> {\n"@ =~= "    "@
        + "fn info(&self, index: u16, sub: u8) -> Result<EntryInfo, OdError>"@ + " {\n"@);
    assert("    fn read(&self, index: u16, sub: u8, buf: &mut [u8]) -> Result<usize, OdError> {\n"@
        =~= "    "@
        + "fn read(&self, index: u16, sub: u8, buf: &mut [u8]) -> Result<usize, OdError>"@
        + " {\n"@);
    assert("    fn write(&mut self, index: u16, sub: u8, data: &[u8]) -> Result<(), OdError> {\n"@
        =~= "    "@
        + "fn write(&mut self, index: u16, sub: u8, data: &[u8]) -> Result<(), OdError>"@
        + " {\n"@);
}

proof fn lemma_struct(fields: Seq<FieldSpec>)
    ensures
        is_part_of(
            "pub struct Od {\n"@ + field_lines(fields) + "}\n"@,
            struct_text(fields),
        ),
{
    let head =
        "\n/// Object dictionary data of one device instance.\n///\n/// Fields are plain typed data for direct application access; SDO/PDO\n/// access goes through the [`ObjectDictionary`] impl.\n#[derive(Debug, Clone)]\n#[allow(clippy::struct_field_names)]\npub struct Od {\n"@;
    let own = "pub struct Od {\n"@;
    reveal_strlit(
        "\n/// Object dictionary data of one device instance.\n///\n/// Fields are plain typed data for direct application access; SDO/PDO\n/// access goes through the [`ObjectDictionary`] impl.\n#[derive(Debug, Clone)]\n#[allow(clippy::struct_field_names)]\npub struct Od {\n",
    );
    reveal_strlit("pub struct Od {\n");
    reveal_strlit("}\n\n");
    reveal_strlit("}\n");
    reveal_strlit("\n");
    let before = head.take(head.len() - own.len());
    assert(head =~= before + own);
    assert("}\n\n"@ =~= "}\n"@ + "\n"@);
    assert(struct_text(fields) =~= before + (own + field_lines(fields) + "}\n"@) + "\n"@);
    lemma_part_between(before, own + field_lines(fields) + "}\n"@, "\n"@);
}

proof fn lemma_constructor(fields: Seq<FieldSpec>, uses_node_id: bool)
    ensures
        is_part_of(
            whole_constructor(fields, uses_node_id),
            constructor_text(fields, uses_node_id),
        ),
{
    let parameter = if uses_node_id {
        "node_id"@
    } else {
        "_node_id"@
    };
    let start =
        "impl Od {\n    /// OD initialized with the configured default/actual values;\n    /// `$NODEID`-relative COB-IDs are computed from `"@;
    let middle = "`.\n    #[allow(clippy::unreadable_literal)]\n    pub fn new("@;
    let own = "    pub fn new("@;
    reveal_strlit("`.\n    #[allow(clippy::unreadable_literal)]\n    pub fn new(");
    reveal_strlit("    pub fn new(");
    reveal_strlit("        }\n    }\n}\n\n");
    reveal_strlit("        }\n    }\n}\n");
    reveal_strlit("\n");
    let before = middle.take(middle.len() - own.len());
    assert(middle =~= before + own);
    assert("        }\n    }\n}\n\n"@ =~= "        }\n    }\n}\n"@ + "\n"@);
    let whole = whole_constructor(fields, uses_node_id);
    assert(constructor_text(fields, uses_node_id) =~= (start + parameter + before) + whole
        + "\n"@);
    lemma_part_between(start + parameter + before, whole, "\n"@);
}

proof fn lemma_header(name: Seq<char>)
    ensures
        is_part_of(device_line(name), header(name)),
{
    let start = "// @generated by canopen-od-codegen — DO NOT EDIT\n// Device: "@;
    let rest =
        "\n// Source: CANopenEditor protobuf-JSON device description\n\nuse ::canopen_core::od::{self, DataType, EntryInfo, ObjectDictionary, OdError, PdoAccess, SdoAccess};\nuse ::canopen_core::NodeId;\n\n"@;
    let own = "// Device: "@;
    reveal_strlit("// @generated by canopen-od-codegen — DO NOT EDIT\n// Device: ");
    reveal_strlit(
        "\n// Source: CANopenEditor protobuf-JSON device description\n\nuse ::canopen_core::od::{self, DataType, EntryInfo, ObjectDictionary, OdError, PdoAccess, SdoAccess};\nuse ::canopen_core::NodeId;\n\n",
    );
    reveal_strlit("// Device: ");
    reveal_strlit("\n");
    let before = start.take(start.len() - own.len());
    assert(start =~= before + own);
    let after = rest.skip(1);
    assert(rest =~= "\n"@ + after);
    assert(header(name) =~= before + device_line(name) + after);
    lemma_part_between(before, device_line(name), after);
}

/// The source text of a device is the module of what was generated for its
/// objects, under its product name; a device with an object that cannot be
/// generated is refused.
pub proof fn law_source_text_is_the_module_of_all_objects(device: CanOpenDevice)
    ensures
        generated(device) is Ok <==> objects_output(device.objects@) is Ok,
        generated(device) matches Ok(text) ==> {
            let (out, counts) = objects_output(device.objects@)->Ok_0;
            text == module_text(device.device_info.product_name@, out, counts)
        },
        generated(device) matches Err(e) ==> objects_output(device.objects@) == Err::<
            (OutputSpec, Seq<(Seq<char>, nat)>),
            Seq<char>,
        >(e),
{
}

/// The letters and digits of a text, in lower case.
pub open spec fn word_chars(s: Seq<char>) -> Seq<char>
    decreases s.len(),
{
    if s.len() == 0 {
        Seq::empty()
    } else if is_alphanumeric(s.last()) {
        word_chars(s.drop_last()).push(lower(s.last()))
    } else {
        word_chars(s.drop_last())
    }
}

/// The lower case of an ASCII letter is the small letter, and of any other
/// character the character itself; letters and digits are those of ASCII.
pub proof fn law_letters_have_their_lower_case(c: char)
    ensures
        'A' <= c <= 'Z' ==> lower(c) as int == c as int + ('a' as int - 'A' as int),
        !('A' <= c <= 'Z') ==> lower(c) == c,
        is_alphanumeric(c) <==> '0' <= c <= '9' || 'A' <= c <= 'Z' || 'a' <= c <= 'z',
{
}

proof fn lemma_fragment_chars(s: Seq<char>)
    ensures
        word_chars(fragment(s)) == word_chars(s),
        forall|i: int|
            0 <= i < fragment(s).len() ==> lower(#[trigger] fragment(s)[i]) == fragment(s)[i],
    decreases s.len(),
{
    if s.len() > 0 {
        lemma_fragment_chars(s.drop_last());
        let head = fragment(s.drop_last());
        let whole = fragment(s);
        if is_alphanumeric(s.last()) {
            assert(whole == head.push(lower(s.last())));
            assert(whole.drop_last() =~= head);
        } else if head.len() == 0 || head.last() == '_' {
            assert(whole == head);
        } else {
            assert(whole == head.push('_'));
            assert(whole.drop_last() =~= head);
        }
        assert forall|i: int| 0 <= i < whole.len() implies lower(#[trigger] whole[i])
            == whole[i] by {
            if i < head.len() {
                assert(whole[i] == head[i]);
            }
        }
    }
}

/// A sanitized name has the letters and digits of the name, in lower case and
/// in order, and no others; only a name without any is `unnamed`.
pub proof fn law_sanitized_names_keep_letters_and_digits(name: Seq<char>)
    ensures
        word_chars(name).len() > 0 ==> word_chars(sanitized(name)) == word_chars(name),
        word_chars(name).len() == 0 ==> sanitized(name) == "unnamed"@,
{
    lemma_fragment_chars(name);
    let whole = fragment(name);
    let cut = without_end_mark(whole);
    if whole.len() > 0 && whole.last() == '_' {
        assert(cut == whole.drop_last());
        assert(word_chars(whole) == word_chars(cut));
    }
    if cut.len() == 0 {
        assert(word_chars(cut).len() == 0);
    } else {
        lemma_word_in(name);
    }
}

/// A fragment that is more than a mark has a letter or digit in it.
proof fn lemma_word_in(name: Seq<char>)
    ensures
        fragment(name).len() > 0 ==> word_chars(fragment(name)).len() > 0,
    decreases name.len(),
{
    if name.len() > 0 {
        lemma_word_in(name.drop_last());
        let head = fragment(name.drop_last());
        let whole = fragment(name);
        if is_alphanumeric(name.last()) {
            assert(whole.drop_last() =~= head);
        } else if !(head.len() == 0 || head.last() == '_') {
            assert(whole.drop_last() =~= head);
        }
    }
}

/// The byte that the source form of a byte stands for, as Rust reads it: a
/// backslash and a character, a backslash, an `x` and two hexadecimal digits,
/// or the character itself.
pub open spec fn unescaped(text: Seq<char>) -> Option<nat> {
    if text.len() == 1 && text[0] != '\\' && text[0] != '"' && (text[0] as u32) < 128 {
        Some(text[0] as u32 as nat)
    } else if text.len() == 2 && text[0] == '\\' && (text[1] == '\\' || text[1] == '"') {
        Some(text[1] as u32 as nat)
    } else if text.len() == 4 && text[0] == '\\' && text[1] == 'x' {
        digits_value(text.skip(2), 16)
    } else {
        None
    }
}

/// A byte string literal holds the bytes one after the other, each in a form
/// that Rust reads back as that byte and that is printable ASCII.
pub proof fn law_byte_strings_read_back(bytes: Seq<u8>, b: u8)
    ensures
        byte_string(bytes) == "b\""@ + escaped_bytes(bytes) + "\""@,
        escaped_bytes(Seq::empty()) == Seq::<char>::empty(),
        escaped_bytes(bytes.push(b)) == escaped_bytes(bytes) + escaped_byte(b),
        unescaped(escaped_byte(b)) == Some(b as nat),
        !(0x20 <= b <= 0x7E) ==> escaped_byte(b) == "\\x"@ + hex(b as nat, 2, true),
        0x20 <= b <= 0x7E && b != 0x22 && b != 0x5C ==> escaped_byte(b) == seq![b as char],
        forall|i: int|
            0 <= i < escaped_byte(b).len() ==> 0x20 <= #[trigger] escaped_byte(b)[i] as u32 <= 0x7E,
{
    reveal_strlit("\\\"");
    reveal_strlit("\\\\");
    reveal_strlit("\\x");
    assert(bytes.push(b).drop_last() =~= bytes);
    assert(pow(16, 2) == 0x100) by {
        reveal(pow);
        reveal_with_fuel(pow, 3);
    }
    law_hexadecimal_width(b as nat, 2, true);
    law_hexadecimal_notation(b as nat, 2, true);
    let h = hex(b as nat, 2, true);
    assert(("\\x"@ + h).skip(2) =~= h);
    if !(0x20 <= b <= 0x7E) {
        assert(escaped_byte(b) == "\\x"@ + h);
        assert forall|i: int| 0 <= i < 4 implies 0x20 <= #[trigger] escaped_byte(b)[i] as u32
            <= 0x7E by {
            if i >= 2 {
                assert(escaped_byte(b)[i] == h[i - 2]);
            }
        }
    }
}

} // verus!

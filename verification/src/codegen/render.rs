//! The text of the generated module.

use crate::codegen::counts::counts_view;
use crate::codegen::gen::{texts, Field, FieldSpec, Output, OutputSpec};
use crate::codegen::model::CanOpenDevice;
use crate::text::{decimal, decimal_text};
use vstd::prelude::*;
use vstd::string::StringExecFns;

verus! {

/// The head of the module, for a device with the given product name.
pub open spec fn header(name: Seq<char>) -> Seq<char> {
    "// @generated by canopen-od-codegen — DO NOT EDIT\n// Device: "@ + (if name.len() == 0 {
        "unnamed device"@
    } else {
        name
    })
        + "\n// Source: CANopenEditor protobuf-JSON device description\n\nuse ::canopen_core::od::{self, DataType, EntryInfo, ObjectDictionary, OdError, PdoAccess, SdoAccess};\nuse ::canopen_core::NodeId;\n\n"@
}

/// The constant for one label.
pub open spec fn count_line(label: Seq<char>, count: nat) -> Seq<char> {
    "/// Number of enabled OD objects labelled "@ + label + " (`OD_CNT_"@ + label
        + "`).\npub const CNT_"@ + label + ": u8 = "@ + decimal(count) + ";\n"@
}

/// The constants for all labels.
pub open spec fn count_lines(counts: Seq<(Seq<char>, nat)>) -> Seq<char>
    decreases counts.len(),
{
    if counts.len() == 0 {
        Seq::empty()
    } else {
        count_lines(counts.drop_last()) + count_line(counts.last().0, counts.last().1)
    }
}

/// The declaration of one field.
pub open spec fn field_line(field: FieldSpec) -> Seq<char> {
    "    /// "@ + field.doc + "\n    pub "@ + field.name + ": "@ + field.type_decl + ",\n"@
}

/// The declarations of all fields.
pub open spec fn field_lines(fields: Seq<FieldSpec>) -> Seq<char>
    decreases fields.len(),
{
    if fields.len() == 0 {
        Seq::empty()
    } else {
        field_lines(fields.drop_last()) + field_line(fields.last())
    }
}

/// The initializer of one field.
pub open spec fn init_line(field: FieldSpec) -> Seq<char> {
    "            "@ + field.name + ": "@ + field.init + ",\n"@
}

/// The initializers of all fields.
pub open spec fn init_lines(fields: Seq<FieldSpec>) -> Seq<char>
    decreases fields.len(),
{
    if fields.len() == 0 {
        Seq::empty()
    } else {
        init_lines(fields.drop_last()) + init_line(fields.last())
    }
}

/// One match arm on its line.
pub open spec fn arm_line(arm: Seq<char>) -> Seq<char> {
    "            "@ + arm + "\n"@
}

/// All match arms of a method.
pub open spec fn arm_lines(arms: Seq<Seq<char>>) -> Seq<char>
    decreases arms.len(),
{
    if arms.len() == 0 {
        Seq::empty()
    } else {
        arm_lines(arms.drop_last()) + arm_line(arms.last())
    }
}

/// One method of the `ObjectDictionary` impl.
pub open spec fn method(signature: Seq<char>, arms: Seq<Seq<char>>) -> Seq<char> {
    "    "@ + signature + " {\n        match (index, sub) {\n"@ + arm_lines(arms)
        + "            _ => Err(OdError::ObjectNotFound),\n        }\n    }\n\n"@
}

/// The struct with its fields.
pub open spec fn struct_text(fields: Seq<FieldSpec>) -> Seq<char> {
    "\n/// Object dictionary data of one device instance.\n///\n/// Fields are plain typed data for direct application access; SDO/PDO\n/// access goes through the [`ObjectDictionary`] impl.\n#[derive(Debug, Clone)]\n#[allow(clippy::struct_field_names)]\npub struct Od {\n"@
        + field_lines(fields) + "}\n\n"@
}

/// The constructor.
pub open spec fn constructor_text(fields: Seq<FieldSpec>, uses_node_id: bool) -> Seq<char> {
    let parameter = if uses_node_id {
        "node_id"@
    } else {
        "_node_id"@
    };
    "impl Od {\n    /// OD initialized with the configured default/actual values;\n    /// `$NODEID`-relative COB-IDs are computed from `"@
        + parameter + "`.\n    #[allow(clippy::unreadable_literal)]\n    pub fn new("@ + parameter
        + ": NodeId) -> Self {\n        Self {\n"@ + init_lines(fields)
        + "        }\n    }\n}\n\n"@
}

/// The `ObjectDictionary` impl.
pub open spec fn dictionary_text(out: OutputSpec) -> Seq<char> {
    "#[allow(clippy::unreadable_literal, clippy::match_same_arms, clippy::too_many_lines)]\nimpl ObjectDictionary for Od {\n"@
        + method(
        "fn info(&self, index: u16, sub: u8) -> Result<EntryInfo, OdError>"@,
        out.info_arms,
    ) + method(
        "fn read(&self, index: u16, sub: u8, buf: &mut [u8]) -> Result<usize, OdError>"@,
        out.read_arms,
    ) + method(
        "fn write(&mut self, index: u16, sub: u8, data: &[u8]) -> Result<(), OdError>"@,
        out.write_arms,
    ) + "}\n"@
}

/// The whole module.
pub open spec fn module_text(
    product_name: Seq<char>,
    out: OutputSpec,
    counts: Seq<(Seq<char>, nat)>,
) -> Seq<char> {
    header(product_name) + count_lines(counts) + struct_text(out.fields) + constructor_text(
        out.fields,
        out.uses_node_id,
    ) + dictionary_text(out)
}

fn count_lines_text(counts: &Vec<(String, usize)>) -> (text: String)
    ensures
        text@ == count_lines(counts_view(counts@)),
{
    let ghost all = counts_view(counts@);
    let mut text = String::new();
    let mut i: usize = 0;
    assert(all.take(0) =~= Seq::empty());
    assert(text@ =~= count_lines(all.take(0)));
    while i < counts.len()
        invariant
            i <= counts@.len(),
            all == counts_view(counts@),
            text@ == count_lines(all.take(i as int)),
        decreases counts@.len() - i,
    {
        assert(all.take(i + 1).drop_last() =~= all.take(i as int));
        assert(all.take(i + 1).last() == all[i as int]);
        let label = counts[i].0.as_str();
        let mut line = "/// Number of enabled OD objects labelled ".to_owned();
        line.append(label);
        line.append(" (`OD_CNT_");
        line.append(label);
        line.append("`).\npub const CNT_");
        line.append(label);
        line.append(": u8 = ");
        line.append(decimal_text(counts[i].1 as u128).as_str());
        line.append(";\n");
        text.append(line.as_str());
        i += 1;
    }
    assert(all.take(i as int) =~= all);
    text
}

fn field_lines_text(fields: &Vec<Field>) -> (text: String)
    ensures
        text@ == field_lines(fields@.map_values(|f: Field| f@)),
{
    let ghost all = fields@.map_values(|f: Field| f@);
    let mut text = String::new();
    let mut i: usize = 0;
    assert(all.take(0) =~= Seq::empty());
    assert(text@ =~= field_lines(all.take(0)));
    while i < fields.len()
        invariant
            i <= fields@.len(),
            all == fields@.map_values(|f: Field| f@),
            text@ == field_lines(all.take(i as int)),
        decreases fields@.len() - i,
    {
        assert(all.take(i + 1).drop_last() =~= all.take(i as int));
        assert(all.take(i + 1).last() == all[i as int]);
        let mut line = "    /// ".to_owned();
        line.append(fields[i].doc.as_str());
        line.append("\n    pub ");
        line.append(fields[i].name.as_str());
        line.append(": ");
        line.append(fields[i].type_decl.as_str());
        line.append(",\n");
        text.append(line.as_str());
        i += 1;
    }
    assert(all.take(i as int) =~= all);
    text
}

fn init_lines_text(fields: &Vec<Field>) -> (text: String)
    ensures
        text@ == init_lines(fields@.map_values(|f: Field| f@)),
{
    let ghost all = fields@.map_values(|f: Field| f@);
    let mut text = String::new();
    let mut i: usize = 0;
    assert(all.take(0) =~= Seq::empty());
    assert(text@ =~= init_lines(all.take(0)));
    while i < fields.len()
        invariant
            i <= fields@.len(),
            all == fields@.map_values(|f: Field| f@),
            text@ == init_lines(all.take(i as int)),
        decreases fields@.len() - i,
    {
        assert(all.take(i + 1).drop_last() =~= all.take(i as int));
        assert(all.take(i + 1).last() == all[i as int]);
        let mut line = "            ".to_owned();
        line.append(fields[i].name.as_str());
        line.append(": ");
        line.append(fields[i].init.as_str());
        line.append(",\n");
        text.append(line.as_str());
        i += 1;
    }
    assert(all.take(i as int) =~= all);
    text
}

fn method_text(signature: &str, arms: &Vec<String>) -> (text: String)
    ensures
        text@ == method(signature@, texts(arms@)),
{
    let ghost all = texts(arms@);
    let mut body = String::new();
    let mut i: usize = 0;
    assert(all.take(0) =~= Seq::empty());
    assert(body@ =~= arm_lines(all.take(0)));
    while i < arms.len()
        invariant
            i <= arms@.len(),
            all == texts(arms@),
            body@ == arm_lines(all.take(i as int)),
        decreases arms@.len() - i,
    {
        assert(all.take(i + 1).drop_last() =~= all.take(i as int));
        assert(all.take(i + 1).last() == all[i as int]);
        let mut line = "            ".to_owned();
        line.append(arms[i].as_str());
        line.append("\n");
        body.append(line.as_str());
        i += 1;
    }
    assert(all.take(i as int) =~= all);
    let mut text = "    ".to_owned();
    text.append(signature);
    text.append(" {\n        match (index, sub) {\n");
    text.append(body.as_str());
    text.append("            _ => Err(OdError::ObjectNotFound),\n        }\n    }\n\n");
    text
}

fn header_text(name: &str) -> (text: String)
    ensures
        text@ == header(name@),
{
    let mut text = "// @generated by canopen-od-codegen — DO NOT EDIT\n// Device: ".to_owned();
    text.append(
        if name.is_empty() {
            "unnamed device"
        } else {
            name
        },
    );
    text.append(
        "\n// Source: CANopenEditor protobuf-JSON device description\n\nuse ::canopen_core::od::{self, DataType, EntryInfo, ObjectDictionary, OdError, PdoAccess, SdoAccess};\nuse ::canopen_core::NodeId;\n\n",
    );
    text
}

fn constructor(out: &Output) -> (text: String)
    ensures
        text@ == constructor_text(out@.fields, out@.uses_node_id),
{
    let parameter = if out.uses_node_id {
        "node_id"
    } else {
        "_node_id"
    };
    let mut text =
        "impl Od {\n    /// OD initialized with the configured default/actual values;\n    /// `$NODEID`-relative COB-IDs are computed from `".to_owned();
    text.append(parameter);
    text.append("`.\n    #[allow(clippy::unreadable_literal)]\n    pub fn new(");
    text.append(parameter);
    text.append(": NodeId) -> Self {\n        Self {\n");
    text.append(init_lines_text(&out.fields).as_str());
    text.append("        }\n    }\n}\n\n");
    text
}

/// Render the complete module.
pub fn render(device: &CanOpenDevice, out: &Output, counts: &Vec<(String, usize)>) -> (text: String)
    ensures
        text@ == module_text(device.device_info.product_name@, out@, counts_view(counts@)),
{
    let mut w = header_text(device.device_info.product_name.as_str());
    w.append(count_lines_text(counts).as_str());
    let mut fields =
        "\n/// Object dictionary data of one device instance.\n///\n/// Fields are plain typed data for direct application access; SDO/PDO\n/// access goes through the [`ObjectDictionary`] impl.\n#[derive(Debug, Clone)]\n#[allow(clippy::struct_field_names)]\npub struct Od {\n".to_owned();
    fields.append(field_lines_text(&out.fields).as_str());
    fields.append("}\n\n");
    w.append(fields.as_str());
    w.append(constructor(out).as_str());
    let mut dictionary =
        "#[allow(clippy::unreadable_literal, clippy::match_same_arms, clippy::too_many_lines)]\nimpl ObjectDictionary for Od {\n".to_owned();
    dictionary.append(
        method_text(
            "fn info(&self, index: u16, sub: u8) -> Result<EntryInfo, OdError>",
            &out.info_arms,
        ).as_str(),
    );
    dictionary.append(
        method_text(
            "fn read(&self, index: u16, sub: u8, buf: &mut [u8]) -> Result<usize, OdError>",
            &out.read_arms,
        ).as_str(),
    );
    dictionary.append(
        method_text(
            "fn write(&mut self, index: u16, sub: u8, data: &[u8]) -> Result<(), OdError>",
            &out.write_arms,
        ).as_str(),
    );
    dictionary.append("}\n");
    w.append(dictionary.as_str());
    w
}

} // verus!

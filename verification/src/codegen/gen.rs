//! Rust code generation from a device model.
//!
//! Emits one `Od` struct holding all OD data as typed fields plus an
//! `ObjectDictionary` impl dispatching `(index, sub)` to those fields via
//! `match`: no unsafe, no pointers, fully checked at compile time.

use crate::codegen::counts::{count_label, counted, counts_view};
use crate::codegen::model::{set_or, CanOpenDevice, OdObject, OdSubObject};
use crate::codegen::names::{byte_string, count_longer, escape_byte_string, first_free};
use crate::codegen::names::{lemma_count_longer, sanitize, unique_name};
use crate::codegen::render::{module_text, render};
use crate::codegen::values::{access_label, complaint, debug_text, init_expr, init_text, int_init};
use crate::codegen::values::{int_literal, literal, parse_int, pdo_access, pdo_variant, quoted};
use crate::codegen::values::{scalar_of, scalar_type, sdo_access, sdo_label, sdo_rights, Scalar};
use crate::codegen::values::ScalarSpec;
use crate::number::{read_unsigned, unsigned_value};
use crate::text::{decimal, decimal_text, hex, hex_literal, hex_literal_text, hex_text, same};
use crate::text::{text_result, trim, trimmed};
use vstd::prelude::*;
use vstd::string::StringExecFns;

verus! {

/// Everything generated for one struct field.
#[derive(Debug)]
pub struct Field {
    pub doc: String,
    pub name: String,
    pub type_decl: String,
    pub init: String,
}

/// What is generated for one struct field.
#[verifier::ext_equal]
pub struct FieldSpec {
    pub doc: Seq<char>,
    pub name: Seq<char>,
    pub type_decl: Seq<char>,
    pub init: Seq<char>,
}

impl View for Field {
    type V = FieldSpec;

    open spec fn view(&self) -> FieldSpec {
        FieldSpec {
            doc: self.doc@,
            name: self.name@,
            type_decl: self.type_decl@,
            init: self.init@,
        }
    }
}

/// The parts of the generated code.
#[derive(Debug)]
pub struct Output {
    pub fields: Vec<Field>,
    pub info_arms: Vec<String>,
    pub read_arms: Vec<String>,
    pub write_arms: Vec<String>,
    pub uses_node_id: bool,
}

/// What the parts of the generated code are.
#[verifier::ext_equal]
pub struct OutputSpec {
    pub fields: Seq<FieldSpec>,
    pub info_arms: Seq<Seq<char>>,
    pub read_arms: Seq<Seq<char>>,
    pub write_arms: Seq<Seq<char>>,
    pub uses_node_id: bool,
}

/// The texts of a list of strings.
pub open spec fn texts(list: Seq<String>) -> Seq<Seq<char>> {
    list.map_values(|s: String| s@)
}

impl View for Output {
    type V = OutputSpec;

    open spec fn view(&self) -> OutputSpec {
        OutputSpec {
            fields: self.fields@.map_values(|f: Field| f@),
            info_arms: texts(self.info_arms@),
            read_arms: texts(self.read_arms@),
            write_arms: texts(self.write_arms@),
            uses_node_id: self.uses_node_id,
        }
    }
}

/// The output before anything was generated.
pub open spec fn empty_output() -> OutputSpec {
    OutputSpec {
        fields: Seq::empty(),
        info_arms: Seq::empty(),
        read_arms: Seq::empty(),
        write_arms: Seq::empty(),
        uses_node_id: false,
    }
}

/// The output with one match arm more in each of the three methods.
pub open spec fn with_arms(
    out: OutputSpec,
    info: Seq<char>,
    read: Seq<char>,
    write: Seq<char>,
) -> OutputSpec {
    OutputSpec {
        info_arms: out.info_arms.push(info),
        read_arms: out.read_arms.push(read),
        write_arms: out.write_arms.push(write),
        ..out
    }
}

/// The output with one field more.
pub open spec fn with_field(out: OutputSpec, field: FieldSpec, uses_node_id: bool) -> OutputSpec {
    OutputSpec {
        fields: out.fields.push(field),
        uses_node_id: out.uses_node_id || uses_node_id,
        ..out
    }
}

/// The names of the fields so far.
pub open spec fn field_names(out: OutputSpec) -> Seq<Seq<char>> {
    out.fields.map_values(|f: FieldSpec| f.name)
}

impl Output {
    fn new() -> (out: Self)
        ensures
            out@ == empty_output(),
    {
        let out = Self {
            fields: Vec::new(),
            info_arms: Vec::new(),
            read_arms: Vec::new(),
            write_arms: Vec::new(),
            uses_node_id: false,
        };
        assert(out@ =~= empty_output());
        out
    }

    fn push_arms(&mut self, info: String, read: String, write: String)
        ensures
            final(self)@ == with_arms(old(self)@, info@, read@, write@),
    {
        self.info_arms.push(info);
        self.read_arms.push(read);
        self.write_arms.push(write);
        assert(self@ =~= with_arms(old(self)@, info@, read@, write@));
    }

    fn push_field(&mut self, field: Field, uses_node_id: bool)
        ensures
            final(self)@ == with_field(old(self)@, field@, uses_node_id),
    {
        self.uses_node_id = self.uses_node_id || uses_node_id;
        self.fields.push(field);
        assert(self@ =~= with_field(old(self)@, field@, uses_node_id));
    }

    /// Whether a field has the name.
    fn is_taken(&self, name: &str) -> (taken: bool)
        ensures
            taken == field_names(self@).contains(name@),
    {
        let mut i: usize = 0;
        while i < self.fields.len()
            invariant
                i <= self.fields@.len(),
                forall|k: int| 0 <= k < i ==> #[trigger] field_names(self@)[k] != name@,
            decreases self.fields@.len() - i,
        {
            assert(field_names(self@)[i as int] == self.fields@[i as int].name@);
            if same(self.fields[i].name.as_str(), name) {
                return true;
            }
            i += 1;
        }
        false
    }
}

/// Unique struct field name for an entry: `x{index}_{sanitized name}`.
fn field_name(index: u16, source: &str, out: &Output) -> (name: String)
    ensures
        name@ == unique_name(index, source@, field_names(out@)),
{
    let mut name = "x".to_owned();
    name.append(hex_text(index as u128, 4, false).as_str());
    name.append("_");
    name.append(sanitize(source).as_str());
    let ghost names = field_names(out@);
    while out.is_taken(name.as_str())
        invariant
            names == field_names(out@),
            first_free(name@, names) == unique_name(index, source@, names),
        ensures
            !names.contains(name@),
        decreases count_longer(names, name@.len()),
    {
        proof {
            lemma_count_longer(names, name@);
        }
        name.push('_');
    }
    name
}

/// The pattern that matches one sub-object.
pub open spec fn sub_pattern(index: u16, sub: u8) -> Seq<char> {
    "("@ + hex_literal(index as nat, 4) + ", "@ + hex_literal(sub as nat, 2) + ")"@
}

fn sub_pattern_text(index: u16, sub: u8) -> (pat: String)
    ensures
        pat@ == sub_pattern(index, sub),
{
    let mut pat = "(".to_owned();
    pat.append(hex_literal_text(index as u128, 4).as_str());
    pat.append(", ");
    pat.append(hex_literal_text(sub as u128, 2).as_str());
    pat.append(")");
    pat
}

/// The match arm that gives the metadata of an entry.
pub open spec fn info_arm(
    pat: Seq<char>,
    data_type: Seq<char>,
    sdo: Seq<char>,
    pdo: Seq<char>,
    size: Seq<char>,
) -> Seq<char> {
    pat + " => Ok(EntryInfo { data_type: DataType::"@ + data_type + ", sdo: "@ + sdo + ", pdo: "@
        + pdo + ", size: "@ + size + " }),"@
}

fn info_arm_text(pat: &str, data_type: &str, sdo: &str, pdo: &str, size: &str) -> (arm: String)
    ensures
        arm@ == info_arm(pat@, data_type@, sdo@, pdo@, size@),
{
    let mut arm = pat.to_owned();
    arm.append(" => Ok(EntryInfo { data_type: DataType::");
    arm.append(data_type);
    arm.append(", sdo: ");
    arm.append(sdo);
    arm.append(", pdo: ");
    arm.append(pdo);
    arm.append(", size: ");
    arm.append(size);
    arm.append(" }),");
    arm
}

/// The match arm that refuses an access with `error`.
pub open spec fn error_arm(pat: Seq<char>, error: Seq<char>) -> Seq<char> {
    pat + " => Err(OdError::"@ + error + "),"@
}

fn error_arm_text(pat: &str, error: &str) -> (arm: String)
    ensures
        arm@ == error_arm(pat@, error@),
{
    let mut arm = pat.to_owned();
    arm.append(" => Err(OdError::");
    arm.append(error);
    arm.append("),");
    arm
}

/// The statement that refuses a written value beyond a limit, where `guard`
/// holds.
pub open spec fn limit_check(
    guard: Seq<char>,
    order: Seq<char>,
    lit: Seq<char>,
    error: Seq<char>,
) -> Seq<char> {
    "                if "@ + guard + "v "@ + order + " "@ + lit + " { return Err(OdError::"@ + error
        + "); }\n"@
}

/// The check for one limit of an entry; none where the limit is not set. A
/// limit that is relative to the node id counts without it where
/// `node_relative` is set, and is an error elsewhere.
pub open spec fn limit_text(
    limit: Seq<char>,
    guard: Seq<char>,
    order: Seq<char>,
    error: Seq<char>,
    scalar: ScalarSpec,
    node_relative: bool,
    ctx: Seq<char>,
) -> Result<Seq<char>, Seq<char>> {
    if trimmed(limit).len() == 0 {
        Ok(Seq::empty())
    } else {
        match int_init(limit, ctx) {
            Err(e) => Err(e),
            Ok(bound) => if bound.plus_node_id && !node_relative {
                Err(ctx + ": $NODEID in value limits is not supported"@)
            } else {
                match literal(bound.base, scalar, ctx) {
                    Err(e) => Err(e),
                    Ok(lit) => Ok(limit_check(guard, order, lit, error)),
                }
            },
        }
    }
}

fn limit_line(
    limit: &str,
    guard: &str,
    order: &str,
    error: &str,
    scalar: &Scalar,
    node_relative: bool,
    ctx: &str,
) -> (line: Result<String, String>)
    ensures
        text_result(line) == limit_text(
            limit@,
            guard@,
            order@,
            error@,
            scalar@,
            node_relative,
            ctx@,
        ),
{
    if trim(limit).is_empty() {
        let none = String::new();
        assert(none@ =~= Seq::<char>::empty());
        return Ok(none);
    }
    let bound = match parse_int(limit, ctx) {
        Ok(bound) => bound,
        Err(e) => return Err(e),
    };
    if bound.plus_node_id && !node_relative {
        let mut e = ctx.to_owned();
        e.append(": $NODEID in value limits is not supported");
        return Err(e);
    }
    let lit = match int_literal(bound.base, scalar, ctx) {
        Ok(lit) => lit,
        Err(e) => return Err(e),
    };
    let mut line = "                if ".to_owned();
    line.append(guard);
    line.append("v ");
    line.append(order);
    line.append(" ");
    line.append(lit.as_str());
    line.append(" { return Err(OdError::");
    line.append(error);
    line.append("); }\n");
    Ok(line)
}

/// The checks for both limits of an entry, or the error in one of them.
pub open spec fn limits_text(
    sub: OdSubObject,
    guard: Seq<char>,
    scalar: ScalarSpec,
    node_relative: bool,
    ctx: Seq<char>,
) -> Result<Seq<char>, Seq<char>> {
    match limit_text(
        sub.low_limit@,
        guard,
        "<"@,
        "ValueTooLow"@,
        scalar,
        node_relative,
        ctx,
    ) {
        Err(e) => Err(e),
        Ok(low) => match limit_text(
            sub.high_limit@,
            guard,
            ">"@,
            "ValueTooHigh"@,
            scalar,
            node_relative,
            ctx,
        ) {
            Err(e) => Err(e),
            Ok(high) => Ok(low + high),
        },
    }
}

fn limit_lines(
    sub: &OdSubObject,
    guard: &str,
    scalar: &Scalar,
    node_relative: bool,
    ctx: &str,
) -> (lines: Result<String, String>)
    ensures
        text_result(lines) == limits_text(*sub, guard@, scalar@, node_relative, ctx@),
{
    let mut lines = match limit_line(
        sub.low_limit.as_str(),
        guard,
        "<",
        "ValueTooLow",
        scalar,
        node_relative,
        ctx,
    ) {
        Ok(low) => low,
        Err(e) => return Err(e),
    };
    match limit_line(
        sub.high_limit.as_str(),
        guard,
        ">",
        "ValueTooHigh",
        scalar,
        node_relative,
        ctx,
    ) {
        Ok(high) => lines.append(high.as_str()),
        Err(e) => return Err(e),
    }
    Ok(lines)
}

/// The match arm that writes a value of a scalar type to `place`, after its
/// length and limits were checked.
pub open spec fn write_arm(
    pat: Seq<char>,
    scalar: ScalarSpec,
    limits: Seq<char>,
    place: Seq<char>,
) -> Seq<char> {
    pat + " => {\n                let v = "@ + scalar.rust + "::from_le_bytes(od::exact::<"@
        + decimal(scalar.size) + ">(data)?);\n"@ + limits + "                self."@ + place
        + " = v;\n                Ok(())\n            }"@
}

fn write_arm_text(pat: &str, scalar: &Scalar, limits: &str, place: &str) -> (arm: String)
    ensures
        arm@ == write_arm(pat@, scalar@, limits@, place@),
{
    let mut arm = pat.to_owned();
    arm.append(" => {\n                let v = ");
    arm.append(scalar.rust);
    arm.append("::from_le_bytes(od::exact::<");
    arm.append(decimal_text(scalar.size as u128).as_str());
    arm.append(">(data)?);\n");
    arm.append(limits);
    arm.append("                self.");
    arm.append(place);
    arm.append(" = v;\n                Ok(())\n            }");
    arm
}

/// The write arm of an entry whose limits are checked by `limits`, or the
/// error in one of them; limits count only where the entry is writable.
pub open spec fn scalar_write_arm(
    pat: Seq<char>,
    scalar: ScalarSpec,
    limits: Result<Seq<char>, Seq<char>>,
    place: Seq<char>,
    writable: bool,
    error_pat: Seq<char>,
) -> Result<Seq<char>, Seq<char>> {
    if !writable {
        Ok(error_arm(error_pat, "ReadOnly"@))
    } else {
        match limits {
            Err(e) => Err(e),
            Ok(limits) => Ok(write_arm(pat, scalar, limits, place)),
        }
    }
}

/// The match arm that reads a scalar from `place`.
pub open spec fn scalar_read_arm(
    pat: Seq<char>,
    place: Seq<char>,
    readable: bool,
    error_pat: Seq<char>,
) -> Seq<char> {
    if readable {
        pat + " => od::read_bytes(buf, &self."@ + place + ".to_le_bytes()),"@
    } else {
        error_arm(error_pat, "WriteOnly"@)
    }
}

fn scalar_read_arm_text(pat: &str, place: &str, readable: bool, error_pat: &str) -> (arm: String)
    ensures
        arm@ == scalar_read_arm(pat@, place@, readable, error_pat@),
{
    if readable {
        let mut arm = pat.to_owned();
        arm.append(" => od::read_bytes(buf, &self.");
        arm.append(place);
        arm.append(".to_le_bytes()),");
        arm
    } else {
        error_arm_text(error_pat, "WriteOnly")
    }
}

/// What is generated for a scalar sub-object: a field and its three match
/// arms, or the first error in its value, access rights or limits.
pub open spec fn scalar_sub(
    out: OutputSpec,
    index: u16,
    sub: u8,
    sub_obj: OdSubObject,
    scalar: ScalarSpec,
    field: Seq<char>,
    doc: Seq<char>,
    ctx: Seq<char>,
) -> Result<OutputSpec, Seq<char>> {
    let pat = sub_pattern(index, sub);
    match int_init(sub_obj.spec_init_value(), ctx) {
        Err(e) => Err(e),
        Ok(init) => match init_text(init, scalar, ctx) {
            Err(e) => Err(e),
            Ok(expr) => match sdo_rights(sub_obj.sdo@, ctx) {
                Err(e) => Err(e),
                Ok(sdo) => match pdo_variant(sub_obj.pdo@, ctx) {
                    Err(e) => Err(e),
                    Ok(pdo) => match scalar_write_arm(
                        pat,
                        scalar,
                        limits_text(sub_obj, ""@, scalar, false, ctx),
                        field,
                        sdo.writable,
                        pat,
                    ) {
                        Err(e) => Err(e),
                        Ok(write) => Ok(
                            with_arms(
                                with_field(
                                    out,
                                    FieldSpec {
                                        doc,
                                        name: field,
                                        type_decl: scalar.rust,
                                        init: expr,
                                    },
                                    init.plus_node_id,
                                ),
                                info_arm(
                                    pat,
                                    scalar.data_type,
                                    sdo.variant,
                                    pdo,
                                    decimal(scalar.size),
                                ),
                                scalar_read_arm(pat, field, sdo.readable, pat),
                                write,
                            ),
                        ),
                    },
                },
            },
        },
    }
}

/// Whether the outcome of an emitting function is the expected one: the
/// expected output, or the expected error and the output `left`.
pub open spec fn emitted(
    expected: Result<OutputSpec, Seq<char>>,
    left: OutputSpec,
    done: Result<(), String>,
    after: OutputSpec,
) -> bool {
    match expected {
        Ok(out) => done is Ok && after == out,
        Err(e) => done is Err && done->Err_0@ == e && after == left,
    }
}

/// Generate one scalar sub-object: field plus its three match arms.
fn emit_scalar_sub(
    out: &mut Output,
    index: u16,
    sub: u8,
    sub_obj: &OdSubObject,
    scalar: &Scalar,
    field: String,
    doc: String,
    ctx: &str,
) -> (done: Result<(), String>)
    ensures
        emitted(
            scalar_sub(old(out)@, index, sub, *sub_obj, scalar@, field@, doc@, ctx@),
            old(out)@,
            done,
            final(out)@,
        ),
{
    let init = match parse_int(sub_obj.init_value(), ctx) {
        Ok(init) => init,
        Err(e) => return Err(e),
    };
    let expr = match init_expr(&init, scalar, ctx) {
        Ok(expr) => expr,
        Err(e) => return Err(e),
    };
    let sdo = match sdo_access(sub_obj.sdo.as_str(), ctx) {
        Ok(sdo) => sdo,
        Err(e) => return Err(e),
    };
    let pdo = match pdo_access(sub_obj.pdo.as_str(), ctx) {
        Ok(pdo) => pdo,
        Err(e) => return Err(e),
    };
    let pat = sub_pattern_text(index, sub);
    let write = if sdo.writable {
        match limit_lines(sub_obj, "", scalar, false, ctx) {
            Ok(limits) => write_arm_text(pat.as_str(), scalar, limits.as_str(), field.as_str()),
            Err(e) => return Err(e),
        }
    } else {
        error_arm_text(pat.as_str(), "ReadOnly")
    };
    let size = decimal_text(scalar.size as u128);
    let info = info_arm_text(pat.as_str(), scalar.data_type, sdo.variant, pdo, size.as_str());
    let read = scalar_read_arm_text(pat.as_str(), field.as_str(), sdo.readable, pat.as_str());
    out.push_field(
        Field { doc, name: field, type_decl: scalar.rust.to_owned(), init: expr },
        init.plus_node_id,
    );
    out.push_arms(info, read, write);
    Ok(())
}

/// The data type of a string sub-object in generated code.
pub open spec fn string_type(name: Seq<char>, ctx: Seq<char>) -> Result<Seq<char>, Seq<char>> {
    if name == "VISIBLE_STRING"@ {
        Ok("VisibleString"@)
    } else if name == "OCTET_STRING"@ {
        Ok("OctetString"@)
    } else {
        Err(ctx + ": unsupported string type "@ + debug_text(name))
    }
}

/// The capacity of a string: room for the initial value and the configured
/// length, and at least one byte.
pub open spec fn string_capacity(init: nat, configured: nat) -> nat {
    if init >= configured && init >= 1 {
        init
    } else if configured >= 1 {
        configured
    } else {
        1
    }
}

/// What is generated for a string sub-object.
pub open spec fn string_sub(
    out: OutputSpec,
    index: u16,
    sub: u8,
    sub_obj: OdSubObject,
    field: Seq<char>,
    doc: Seq<char>,
    ctx: Seq<char>,
) -> Result<OutputSpec, Seq<char>> {
    let pat = sub_pattern(index, sub);
    let init = vstd::utf8::encode_utf8(sub_obj.spec_init_value());
    let capacity = string_capacity(init.len(), sub_obj.string_length_min as nat);
    match string_type(sub_obj.data_type@, ctx) {
        Err(e) => Err(e),
        Ok(data_type) => match sdo_rights(sub_obj.sdo@, ctx) {
            Err(e) => Err(e),
            Ok(sdo) => match pdo_variant(sub_obj.pdo@, ctx) {
                Err(e) => Err(e),
                Ok(pdo) => Ok(
                    with_arms(
                        with_field(
                            out,
                            FieldSpec {
                                doc,
                                name: field,
                                type_decl: "od::OdString<"@ + decimal(capacity) + ">"@,
                                init: "od::OdString::new("@ + byte_string(init) + ")"@,
                            },
                            false,
                        ),
                        info_arm(
                            pat,
                            data_type,
                            sdo.variant,
                            pdo,
                            "self."@ + field + ".len()"@,
                        ),
                        if sdo.readable {
                            pat + " => od::read_bytes(buf, self."@ + field + ".as_bytes()),"@
                        } else {
                            error_arm(pat, "WriteOnly"@)
                        },
                        if sdo.writable {
                            pat + " => self."@ + field + ".set(data),"@
                        } else {
                            error_arm(pat, "ReadOnly"@)
                        },
                    ),
                ),
            },
        },
    }
}

/// Generate one string sub-object.
fn emit_string_sub(
    out: &mut Output,
    index: u16,
    sub: u8,
    sub_obj: &OdSubObject,
    field: String,
    doc: String,
    ctx: &str,
) -> (done: Result<(), String>)
    ensures
        emitted(
            string_sub(old(out)@, index, sub, *sub_obj, field@, doc@, ctx@),
            old(out)@,
            done,
            final(out)@,
        ),
{
    let init = sub_obj.init_value().as_bytes();
    let configured: usize = sub_obj.string_length_min as usize;
    let capacity: usize = if init.len() >= configured && init.len() >= 1 {
        init.len()
    } else if configured >= 1 {
        configured
    } else {
        1
    };
    let data_type = if same(sub_obj.data_type.as_str(), "VISIBLE_STRING") {
        "VisibleString"
    } else if same(sub_obj.data_type.as_str(), "OCTET_STRING") {
        "OctetString"
    } else {
        let shown = quoted(sub_obj.data_type.as_str());
        return Err(complaint(ctx, ": unsupported string type ", shown.as_str()));
    };
    let sdo = match sdo_access(sub_obj.sdo.as_str(), ctx) {
        Ok(sdo) => sdo,
        Err(e) => return Err(e),
    };
    let pdo = match pdo_access(sub_obj.pdo.as_str(), ctx) {
        Ok(pdo) => pdo,
        Err(e) => return Err(e),
    };
    let pat = sub_pattern_text(index, sub);
    let mut type_decl = "od::OdString<".to_owned();
    type_decl.append(decimal_text(capacity as u128).as_str());
    type_decl.append(">");
    let mut expr = "od::OdString::new(".to_owned();
    expr.append(escape_byte_string(init).as_str());
    expr.append(")");
    let mut size = "self.".to_owned();
    size.append(field.as_str());
    size.append(".len()");
    let info = info_arm_text(pat.as_str(), data_type, sdo.variant, pdo, size.as_str());
    let read = if sdo.readable {
        let mut arm = pat.clone();
        arm.append(" => od::read_bytes(buf, self.");
        arm.append(field.as_str());
        arm.append(".as_bytes()),");
        arm
    } else {
        error_arm_text(pat.as_str(), "WriteOnly")
    };
    let write = if sdo.writable {
        let mut arm = pat.clone();
        arm.append(" => self.");
        arm.append(field.as_str());
        arm.append(".set(data),");
        arm
    } else {
        error_arm_text(pat.as_str(), "ReadOnly")
    };
    out.push_field(Field { doc, name: field, type_decl, init: expr }, false);
    out.push_arms(info, read, write);
    Ok(())
}

/// What is generated for a DOMAIN sub-object: no field, and no data.
pub open spec fn domain_sub(
    out: OutputSpec,
    index: u16,
    sub: u8,
    sub_obj: OdSubObject,
    ctx: Seq<char>,
) -> Result<OutputSpec, Seq<char>> {
    let pat = sub_pattern(index, sub);
    match sdo_rights(sub_obj.sdo@, ctx) {
        Err(e) => Err(e),
        Ok(sdo) => match pdo_variant(sub_obj.pdo@, ctx) {
            Err(e) => Err(e),
            Ok(pdo) => Ok(
                with_arms(
                    out,
                    info_arm(pat, "Domain"@, sdo.variant, pdo, "0"@),
                    error_arm(pat, "NoData"@),
                    error_arm(pat, "NoData"@),
                ),
            ),
        },
    }
}

/// Generate one DOMAIN sub-object: no storage; the application attaches a
/// handler.
fn emit_domain_sub(
    out: &mut Output,
    index: u16,
    sub: u8,
    sub_obj: &OdSubObject,
    ctx: &str,
) -> (done: Result<(), String>)
    ensures
        emitted(
            domain_sub(old(out)@, index, sub, *sub_obj, ctx@),
            old(out)@,
            done,
            final(out)@,
        ),
{
    let sdo = match sdo_access(sub_obj.sdo.as_str(), ctx) {
        Ok(sdo) => sdo,
        Err(e) => return Err(e),
    };
    let pdo = match pdo_access(sub_obj.pdo.as_str(), ctx) {
        Ok(pdo) => pdo,
        Err(e) => return Err(e),
    };
    let pat = sub_pattern_text(index, sub);
    let info = info_arm_text(pat.as_str(), "Domain", sdo.variant, pdo, "0");
    let read = error_arm_text(pat.as_str(), "NoData");
    let write = error_arm_text(pat.as_str(), "NoData");
    out.push_arms(info, read, write);
    Ok(())
}

/// The context that errors of a sub-object are reported with.
pub open spec fn sub_context(index: u16, sub: u8, obj: OdObject) -> Seq<char> {
    "object "@ + hex_literal(index as nat, 4) + " sub "@ + hex_literal(sub as nat, 2) + " ("@
        + obj.name@ + ")"@
}

/// The documentation of the field for a sub-object.
pub open spec fn sub_doc(index: u16, sub: u8, obj: OdObject, sub_obj: OdSubObject) -> Seq<char> {
    hex_literal(index as nat, 4) + ":"@ + hex(sub as nat, 2, true) + " "@ + obj.name@ + (
    if sub_obj.name@.len() == 0 {
        ""@
    } else {
        " / "@
    }) + sub_obj.name@ + " — "@ + sub_obj.data_type@ + ", "@ + access_label(sub_obj.sdo@)
}

/// What the field for a sub-object is named after: VAR objects have one
/// anonymous sub-object, which takes the name of the object.
pub open spec fn sub_source(obj: OdObject, sub_obj: OdSubObject) -> Seq<char> {
    set_or(set_or(sub_obj.alias@, sub_obj.name@), set_or(obj.alias@, obj.name@))
}

/// What is generated for a sub-object.
#[verifier::opaque]
pub open spec fn any_sub(
    out: OutputSpec,
    index: u16,
    sub: u8,
    obj: OdObject,
    sub_obj: OdSubObject,
) -> Result<OutputSpec, Seq<char>> {
    let ctx = sub_context(index, sub, obj);
    let doc = sub_doc(index, sub, obj, sub_obj);
    let field = unique_name(index, sub_source(obj, sub_obj), field_names(out));
    if sub_obj.data_type@ == "DOMAIN"@ {
        domain_sub(out, index, sub, sub_obj, ctx)
    } else if sub_obj.data_type@ == "VISIBLE_STRING"@ || sub_obj.data_type@ == "OCTET_STRING"@ {
        string_sub(out, index, sub, sub_obj, field, doc, ctx)
    } else {
        match scalar_of(sub_obj.data_type@) {
            None => Err(ctx + ": unsupported data type "@ + debug_text(sub_obj.data_type@)),
            Some(scalar) => scalar_sub(out, index, sub, sub_obj, scalar, field, doc, ctx),
        }
    }
}

fn emit_sub(out: &mut Output, index: u16, sub: u8, obj: &OdObject, sub_obj: &OdSubObject) -> (done:
    Result<(), String>)
    ensures
        emitted(any_sub(old(out)@, index, sub, *obj, *sub_obj), old(out)@, done, final(out)@),
{
    proof {
        reveal(any_sub);
    }
    let mut ctx = "object ".to_owned();
    ctx.append(hex_literal_text(index as u128, 4).as_str());
    ctx.append(" sub ");
    ctx.append(hex_literal_text(sub as u128, 2).as_str());
    ctx.append(" (");
    ctx.append(obj.name.as_str());
    ctx.append(")");
    // VAR objects have one anonymous sub 00: name the field after the object.
    let source = if sub_obj.ident_source().is_empty() {
        obj.ident_source()
    } else {
        sub_obj.ident_source()
    };
    let mut doc = hex_literal_text(index as u128, 4);
    doc.append(":");
    doc.append(hex_text(sub as u128, 2, true).as_str());
    doc.append(" ");
    doc.append(obj.name.as_str());
    doc.append(
        if sub_obj.name.as_str().is_empty() {
            ""
        } else {
            " / "
        },
    );
    doc.append(sub_obj.name.as_str());
    doc.append(" — ");
    doc.append(sub_obj.data_type.as_str());
    doc.append(", ");
    doc.append(sdo_label(sub_obj.sdo.as_str()));
    let data_type = sub_obj.data_type.as_str();
    if same(data_type, "DOMAIN") {
        emit_domain_sub(out, index, sub, sub_obj, ctx.as_str())
    } else if same(data_type, "VISIBLE_STRING") || same(data_type, "OCTET_STRING") {
        let field = field_name(index, source, out);
        emit_string_sub(out, index, sub, sub_obj, field, doc, ctx.as_str())
    } else {
        match scalar_type(data_type) {
            Some(scalar) => {
                let field = field_name(index, source, out);
                emit_scalar_sub(out, index, sub, sub_obj, &scalar, field, doc, ctx.as_str())
            },
            None => {
                let shown = quoted(data_type);
                Err(complaint(ctx.as_str(), ": unsupported data type ", shown.as_str()))
            },
        }
    }
}

/// The sub-objects of an object by sub-index; a later entry with the same
/// sub-index takes the place of an earlier one.
pub open spec fn sub_table(index_text: Seq<char>, subs: Seq<(String, OdSubObject)>) -> Result<
    Seq<Option<OdSubObject>>,
    Seq<char>,
>
    decreases subs.len(),
{
    if subs.len() == 0 {
        Ok(Seq::new(256, |i: int| None))
    } else {
        match sub_table(index_text, subs.drop_last()) {
            Err(e) => Err(e),
            Ok(table) => match unsigned_value(subs.last().0@, 16, 0xFF) {
                None => Err(
                    "object "@ + index_text + ": invalid sub-index "@ + debug_text(
                        subs.last().0@,
                    ),
                ),
                Some(sub) => Ok(table.update(sub as int, Some(subs.last().1))),
            },
        }
    }
}

/// How many of the first `n` sub-indices exist.
pub open spec fn present(table: Seq<Option<OdSubObject>>, n: nat) -> nat
    decreases n,
{
    if n == 0 {
        0
    } else {
        present(table, (n - 1) as nat) + if table[n - 1] is Some {
            1nat
        } else {
            0nat
        }
    }
}

/// What slots that refer to sub-objects by position stand for.
spec fn slots_view(slots: Seq<Option<usize>>, subs: Seq<(String, OdSubObject)>) -> Seq<
    Option<OdSubObject>,
> {
    slots.map_values(
        |slot: Option<usize>|
            match slot {
                Some(i) => Some(subs[i as int].1),
                None => None,
            },
    )
}

/// Whether slots refer to existing sub-objects.
spec fn slots_wf(slots: Seq<Option<usize>>, subs: Seq<(String, OdSubObject)>) -> bool {
    &&& slots.len() == 256
    &&& forall|k: int|
        0 <= k < 256 && (#[trigger] slots[k]) is Some ==> slots[k]->0 < subs.len()
}

/// Sort the sub-objects of an object by sub-index.
fn sub_slots(index_text: &str, subs: &Vec<(String, OdSubObject)>) -> (slots: Result<
    Vec<Option<usize>>,
    String,
>)
    ensures
        match sub_table(index_text@, subs@) {
            Ok(table) => slots is Ok && slots_wf(slots->Ok_0@, subs@) && slots_view(
                slots->Ok_0@,
                subs@,
            ) == table,
            Err(e) => slots is Err && slots->Err_0@ == e,
        },
{
    let mut slots: Vec<Option<usize>> = Vec::new();
    let mut k: usize = 0;
    while k < 256
        invariant
            k <= 256,
            slots@.len() == k,
            forall|i: int| 0 <= i < k ==> slots@[i] is None,
        decreases 256 - k,
    {
        slots.push(None);
        k += 1;
    }
    let mut i: usize = 0;
    proof {
        assert(subs@.take(0) =~= Seq::empty());
        assert(slots_view(slots@, subs@) =~= Seq::new(256, |i: int| None::<OdSubObject>));
    }
    while i < subs.len()
        invariant
            i <= subs@.len(),
            slots_wf(slots@, subs@),
            sub_table(index_text@, subs@.take(i as int)) == Ok::<
                Seq<Option<OdSubObject>>,
                Seq<char>,
            >(slots_view(slots@, subs@)),
        decreases subs@.len() - i,
    {
        let ghost before = slots@;
        proof {
            let here = subs@.take(i + 1);
            assert(here.drop_last() =~= subs@.take(i as int));
            assert(here.last() == subs@[i as int]);
        }
        match read_unsigned(subs[i].0.as_str(), 16, 0xFF) {
            Some(sub) => {
                slots.set(sub as usize, Some(i));
                assert(slots_view(slots@, subs@) =~= slots_view(before, subs@).update(
                    sub as int,
                    Some(subs@[i as int].1),
                ));
            },
            None => {
                let shown = quoted(subs[i].0.as_str());
                let mut place = "object ".to_owned();
                place.append(index_text);
                proof {
                    lemma_bad_sub(index_text@, subs@, i as int);
                }
                return Err(complaint(place.as_str(), ": invalid sub-index ", shown.as_str()));
            },
        }
        i += 1;
    }
    assert(subs@.take(i as int) =~= subs@);
    Ok(slots)
}

/// A sub-index that cannot be read is reported, whatever follows it.
proof fn lemma_bad_sub(index_text: Seq<char>, subs: Seq<(String, OdSubObject)>, i: int)
    requires
        0 <= i < subs.len(),
        sub_table(index_text, subs.take(i + 1)) is Err,
    ensures
        sub_table(index_text, subs) == sub_table(index_text, subs.take(i + 1)),
    decreases subs.len(),
{
    if i + 1 < subs.len() {
        assert(subs.drop_last().take(i + 1) =~= subs.take(i + 1));
        lemma_bad_sub(index_text, subs.drop_last(), i);
    } else {
        assert(subs.take(i + 1) =~= subs);
    }
}

/// Whether two elements of an array agree in data type and access.
pub open spec fn alike(a: OdSubObject, b: OdSubObject) -> bool {
    a.data_type@ == b.data_type@ && a.sdo@ == b.sdo@ && a.pdo@ == b.pdo@
}

/// The first thing that is wrong with the elements of an array from the
/// sub-index `sub` on, `n` being the number of elements.
pub open spec fn element_error(
    table: Seq<Option<OdSubObject>>,
    first: OdSubObject,
    n: nat,
    sub: nat,
    ctx: Seq<char>,
) -> Option<Seq<char>>
    decreases 256 - sub,
{
    if sub > n {
        None
    } else if sub >= 256 || table[sub as int] is None {
        Some(ctx + ": element sub-indices must be contiguous"@)
    } else if !alike(table[sub as int]->0, first) {
        Some(ctx + ": elements must share data type and access"@)
    } else {
        element_error(table, first, n, sub + 1, ctx)
    }
}

/// The initializer expressions of the first `n` elements of an array, and
/// whether one of them depends on the node id.
pub open spec fn element_inits(
    table: Seq<Option<OdSubObject>>,
    n: nat,
    scalar: ScalarSpec,
    ctx: Seq<char>,
) -> Result<(Seq<Seq<char>>, bool), Seq<char>>
    decreases n,
{
    if n == 0 {
        Ok((Seq::empty(), false))
    } else {
        match element_inits(table, (n - 1) as nat, scalar, ctx) {
            Err(e) => Err(e),
            Ok((list, uses)) => match int_init(table[n as int]->0.spec_init_value(), ctx) {
                Err(e) => Err(e),
                Ok(init) => match init_text(init, scalar, ctx) {
                    Err(e) => Err(e),
                    Ok(expr) => Ok((list.push(expr), uses || init.plus_node_id)),
                },
            },
        }
    }
}

/// The texts of `list`, separated by commas.
pub open spec fn joined(list: Seq<Seq<char>>) -> Seq<char>
    decreases list.len(),
{
    if list.len() == 0 {
        Seq::empty()
    } else if list.len() == 1 {
        list[0]
    } else {
        joined(list.drop_last()) + ", "@ + list.last()
    }
}

/// Whether all texts of `list` are the same.
pub open spec fn all_same(list: Seq<Seq<char>>) -> bool {
    forall|i: int| 0 <= i < list.len() ==> #[trigger] list[i] == list[0]
}

/// The initializer expression of an array field.
pub open spec fn array_init(list: Seq<Seq<char>>) -> Seq<char> {
    if all_same(list) {
        "["@ + list[0] + "; "@ + decimal(list.len()) + "]"@
    } else {
        "["@ + joined(list) + "]"@
    }
}

fn array_init_text(list: &Vec<String>) -> (expr: String)
    requires
        list@.len() > 0,
    ensures
        expr@ == array_init(texts(list@)),
{
    let ghost all = texts(list@);
    let mut same_so_far = true;
    let mut inner = list[0].clone();
    let mut i: usize = 1;
    assert(all.take(1).len() == 1 && all.take(1)[0] == list@[0]@);
    while i < list.len()
        invariant
            1 <= i <= list@.len(),
            all == texts(list@),
            inner@ == joined(all.take(i as int)),
            same_so_far == all_same(all.take(i as int)),
        decreases list@.len() - i,
    {
        let ghost here = all.take(i + 1);
        assert(here.drop_last() =~= all.take(i as int));
        assert(here.last() == list@[i as int]@);
        assert(here[0] == list@[0]@);
        let equal = same(list[i].as_str(), list[0].as_str());
        proof {
            if same_so_far && equal {
                assert forall|k: int| 0 <= k < here.len() implies #[trigger] here[k] == here[0] by {
                    if k < i {
                        assert(all.take(i as int)[k] == all.take(i as int)[0]);
                    }
                }
            } else if !same_so_far {
                let k = choose|k: int|
                    0 <= k < i && #[trigger] all.take(i as int)[k] != all.take(i as int)[0];
                assert(here[k] != here[0]);
            } else {
                assert(here[i as int] != here[0]);
            }
        }
        same_so_far = same_so_far && equal;
        inner.append(", ");
        inner.append(list[i].as_str());
        i += 1;
    }
    assert(all.take(i as int) =~= all);
    let mut expr = "[".to_owned();
    if same_so_far {
        expr.append(list[0].as_str());
        expr.append("; ");
        expr.append(decimal_text(list.len() as u128).as_str());
    } else {
        expr.append(inner.as_str());
    }
    expr.append("]");
    expr
}

/// The context that errors of an array are reported with.
pub open spec fn array_context(index: u16, obj: OdObject) -> Seq<char> {
    "array object "@ + hex_literal(index as nat, 4) + " ("@ + obj.name@ + ")"@
}

/// The documentation of an array field.
pub open spec fn array_doc(index: u16, obj: OdObject, first: OdSubObject, n: nat) -> Seq<char> {
    hex_literal(index as nat, 4) + ":01..="@ + hex(n, 2, true) + " "@ + obj.name@ + " — "@
        + first.data_type@ + "["@ + decimal(n) + "], "@ + access_label(first.sdo@)
}

/// The pattern that matches the elements of an array and binds the sub-index.
pub open spec fn element_pattern(index: u16, n: nat) -> Seq<char> {
    "("@ + hex_literal(index as nat, 4) + ", s @ 0x01..="@ + hex_literal(n, 2) + ")"@
}

/// The pattern that matches the elements of an array.
pub open spec fn range_pattern(index: u16, n: nat) -> Seq<char> {
    "("@ + hex_literal(index as nat, 4) + ", 0x01..="@ + hex_literal(n, 2) + ")"@
}

/// Whether the first `n` elements of an array have the same limits.
pub open spec fn uniform_limits(table: Seq<Option<OdSubObject>>, n: nat) -> bool {
    forall|sub: int|
        1 <= sub <= n ==> (#[trigger] table[sub])->0.low_limit@ == table[1]->0.low_limit@
            && table[sub]->0.high_limit@ == table[1]->0.high_limit@
}

/// What confines a check to the element with the sub-index `sub`.
pub open spec fn element_guard(sub: nat) -> Seq<char> {
    "s == "@ + hex_literal(sub, 2) + " && "@
}

/// The checks for the limits of the first `n` elements of an array, each for
/// its own sub-index.
pub open spec fn element_limits(
    table: Seq<Option<OdSubObject>>,
    n: nat,
    scalar: ScalarSpec,
    ctx: Seq<char>,
) -> Result<Seq<char>, Seq<char>>
    decreases n,
{
    if n == 0 {
        Ok(Seq::empty())
    } else {
        match element_limits(table, (n - 1) as nat, scalar, ctx) {
            Err(e) => Err(e),
            Ok(before) => match limits_text(
                table[n as int]->0,
                element_guard(n),
                scalar,
                true,
                ctx,
            ) {
                Err(e) => Err(e),
                Ok(own) => Ok(before + own),
            },
        }
    }
}

/// The checks for the limits of the `n` elements of an array: common ones
/// where the limits are the same, else one by one. The node id does not count
/// in them.
pub open spec fn array_limits(
    table: Seq<Option<OdSubObject>>,
    n: nat,
    scalar: ScalarSpec,
    ctx: Seq<char>,
) -> Result<Seq<char>, Seq<char>> {
    if uniform_limits(table, n) {
        limits_text(table[1]->0, ""@, scalar, true, ctx)
    } else {
        element_limits(table, n, scalar, ctx)
    }
}

/// What is generated for the `n` elements of an array.
pub open spec fn array_elements(
    out: OutputSpec,
    index: u16,
    obj: OdObject,
    table: Seq<Option<OdSubObject>>,
    first: OdSubObject,
    n: nat,
    ctx: Seq<char>,
) -> Result<OutputSpec, Seq<char>> {
    let field = unique_name(index, set_or(obj.alias@, obj.name@), field_names(out));
    let place = field + "[(s - 1) as usize]"@;
    match scalar_of(first.data_type@) {
        None => Err(ctx + ": unsupported element type "@ + debug_text(first.data_type@)),
        Some(scalar) => match element_inits(table, n, scalar, ctx) {
            Err(e) => Err(e),
            Ok((inits, uses_node_id)) => match sdo_rights(first.sdo@, ctx) {
                Err(e) => Err(e),
                Ok(sdo) => match pdo_variant(first.pdo@, ctx) {
                    Err(e) => Err(e),
                    Ok(pdo) => match scalar_write_arm(
                        element_pattern(index, n),
                        scalar,
                        array_limits(table, n, scalar, ctx),
                        place,
                        sdo.writable,
                        range_pattern(index, n),
                    ) {
                        Err(e) => Err(e),
                        Ok(write) => Ok(
                            with_arms(
                                with_field(
                                    out,
                                    FieldSpec {
                                        doc: array_doc(index, obj, first, n),
                                        name: field,
                                        type_decl: "["@ + scalar.rust + "; "@ + decimal(n) + "]"@,
                                        init: array_init(inits),
                                    },
                                    uses_node_id,
                                ),
                                info_arm(
                                    range_pattern(index, n),
                                    scalar.data_type,
                                    sdo.variant,
                                    pdo,
                                    decimal(scalar.size),
                                ),
                                scalar_read_arm(
                                    element_pattern(index, n),
                                    place,
                                    sdo.readable,
                                    range_pattern(index, n),
                                ),
                                write,
                            ),
                        ),
                    },
                },
            },
        },
    }
}

/// What is generated for an ARRAY object.
pub open spec fn array_object(
    out: OutputSpec,
    index: u16,
    obj: OdObject,
    table: Seq<Option<OdSubObject>>,
) -> Result<OutputSpec, Seq<char>> {
    let ctx = array_context(index, obj);
    let n = (present(table, 256) - 1) as nat;
    match table[0] {
        None => Err(ctx + ": missing sub 00"@),
        Some(count_sub) => match any_sub(out, index, 0, obj, count_sub) {
            Err(e) => Err(e),
            Ok(out) => if n == 0 {
                Ok(out)
            } else {
                match table[1] {
                    None => Err(ctx + ": elements must start at sub 01"@),
                    Some(first) => match element_error(table, first, n, 1, ctx) {
                        Some(e) => Err(e),
                        None => array_elements(out, index, obj, table, first, n, ctx),
                    },
                }
            },
        },
    }
}

/// What is left in the output when an ARRAY object cannot be generated: its
/// sub 00, unless that is at fault itself.
pub open spec fn array_left(
    out: OutputSpec,
    index: u16,
    obj: OdObject,
    table: Seq<Option<OdSubObject>>,
) -> OutputSpec {
    match table[0] {
        None => out,
        Some(count_sub) => match any_sub(out, index, 0, obj, count_sub) {
            Err(_) => out,
            Ok(after) => after,
        },
    }
}

/// No more sub-indices exist than are counted, and one that exists counts.
proof fn lemma_present(table: Seq<Option<OdSubObject>>, n: nat)
    ensures
        present(table, n) <= n,
        n > 0 && table[0] is Some ==> present(table, n) >= 1,
    decreases n,
{
    if n > 0 {
        lemma_present(table, (n - 1) as nat);
    }
}

/// Count the sub-objects of an object.
fn count_slots(slots: &Vec<Option<usize>>, subs: &Vec<(String, OdSubObject)>) -> (count: usize)
    requires
        slots_wf(slots@, subs@),
    ensures
        count == present(slots_view(slots@, subs@), 256),
        count <= 256,
        slots@[0] is Some ==> count >= 1,
{
    let ghost table = slots_view(slots@, subs@);
    let mut count: usize = 0;
    let mut k: usize = 0;
    while k < 256
        invariant
            k <= 256,
            slots_wf(slots@, subs@),
            table == slots_view(slots@, subs@),
            count == present(table, k as nat),
            count <= k,
        decreases 256 - k,
    {
        if slots[k].is_some() {
            count += 1;
        }
        k += 1;
    }
    proof {
        lemma_present(table, 256);
    }
    count
}

/// Check that the elements of an array are contiguous and alike.
fn check_elements(
    slots: &Vec<Option<usize>>,
    subs: &Vec<(String, OdSubObject)>,
    first: &OdSubObject,
    n: usize,
    ctx: &str,
) -> (done: Result<(), String>)
    requires
        slots_wf(slots@, subs@),
        n < 256,
    ensures
        match element_error(slots_view(slots@, subs@), *first, n as nat, 1, ctx@) {
            Some(e) => done is Err && done->Err_0@ == e,
            None => done is Ok && forall|sub: int|
                1 <= sub <= n ==> (#[trigger] slots@[sub]) is Some,
        },
{
    let ghost table = slots_view(slots@, subs@);
    let mut sub: usize = 1;
    while sub <= n
        invariant
            slots_wf(slots@, subs@),
            table == slots_view(slots@, subs@),
            1 <= sub <= n + 1,
            n < 256,
            element_error(table, *first, n as nat, 1, ctx@) == element_error(
                table,
                *first,
                n as nat,
                sub as nat,
                ctx@,
            ),
            forall|k: int| 1 <= k < sub ==> (#[trigger] slots@[k]) is Some,
        decreases n + 1 - sub,
    {
        match slots[sub] {
            None => {
                let mut e = ctx.to_owned();
                e.append(": element sub-indices must be contiguous");
                return Err(e);
            },
            Some(at) => {
                let s = &subs[at].1;
                if !same(s.data_type.as_str(), first.data_type.as_str()) || !same(
                    s.sdo.as_str(),
                    first.sdo.as_str(),
                ) || !same(s.pdo.as_str(), first.pdo.as_str()) {
                    let mut e = ctx.to_owned();
                    e.append(": elements must share data type and access");
                    return Err(e);
                }
            },
        }
        sub += 1;
    }
    Ok(())
}

/// Render the initializers of the elements of an array.
fn init_elements(
    slots: &Vec<Option<usize>>,
    subs: &Vec<(String, OdSubObject)>,
    n: usize,
    scalar: &Scalar,
    ctx: &str,
) -> (inits: Result<(Vec<String>, bool), String>)
    requires
        slots_wf(slots@, subs@),
        n < 256,
        forall|sub: int| 1 <= sub <= n ==> (#[trigger] slots@[sub]) is Some,
    ensures
        match element_inits(slots_view(slots@, subs@), n as nat, scalar@, ctx@) {
            Ok((list, uses)) => inits is Ok && texts(inits->Ok_0.0@) == list && inits->Ok_0.1
                == uses,
            Err(e) => inits is Err && inits->Err_0@ == e,
        },
        inits is Ok ==> inits->Ok_0.0@.len() == n,
{
    let ghost table = slots_view(slots@, subs@);
    let mut list: Vec<String> = Vec::new();
    let mut uses = false;
    let mut k: usize = 0;
    assert(texts(list@) =~= Seq::empty());
    while k < n
        invariant
            k <= n < 256,
            slots_wf(slots@, subs@),
            table == slots_view(slots@, subs@),
            forall|sub: int| 1 <= sub <= n ==> (#[trigger] slots@[sub]) is Some,
            list@.len() == k,
            element_inits(table, k as nat, scalar@, ctx@) == Ok::<
                (Seq<Seq<char>>, bool),
                Seq<char>,
            >((texts(list@), uses)),
        decreases n - k,
    {
        let ghost before = list@;
        assert(slots@[k + 1] is Some);
        let at: usize = slots[k + 1].unwrap();
        proof {
            assert(table[k + 1] == Some(subs@[at as int].1));
        }
        let init = match parse_int(subs[at].1.init_value(), ctx) {
            Ok(init) => init,
            Err(e) => {
                proof {
                    lemma_bad_element(table, n as nat, scalar@, ctx@, (k + 1) as nat);
                }
                return Err(e);
            },
        };
        match init_expr(&init, scalar, ctx) {
            Ok(expr) => {
                list.push(expr);
                assert(texts(list@) =~= texts(before).push(expr@));
            },
            Err(e) => {
                proof {
                    lemma_bad_element(table, n as nat, scalar@, ctx@, (k + 1) as nat);
                }
                return Err(e);
            },
        }
        uses = uses || init.plus_node_id;
        k += 1;
    }
    Ok((list, uses))
}

/// An element whose value is wrong is reported, whatever follows it.
proof fn lemma_bad_element(
    table: Seq<Option<OdSubObject>>,
    n: nat,
    scalar: ScalarSpec,
    ctx: Seq<char>,
    k: nat,
)
    requires
        k <= n,
        element_inits(table, k, scalar, ctx) is Err,
    ensures
        element_inits(table, n, scalar, ctx) == element_inits(table, k, scalar, ctx),
    decreases n,
{
    if k < n {
        lemma_bad_element(table, (n - 1) as nat, scalar, ctx, k);
    }
}

/// An element whose limits are wrong is reported, whatever follows it.
proof fn lemma_bad_limits(
    table: Seq<Option<OdSubObject>>,
    n: nat,
    scalar: ScalarSpec,
    ctx: Seq<char>,
    k: nat,
)
    requires
        k <= n,
        element_limits(table, k, scalar, ctx) is Err,
    ensures
        element_limits(table, n, scalar, ctx) == element_limits(table, k, scalar, ctx),
    decreases n,
{
    if k < n {
        lemma_bad_limits(table, (n - 1) as nat, scalar, ctx, k);
    }
}

/// Whether the elements of an array have the same limits.
fn limits_agree(slots: &Vec<Option<usize>>, subs: &Vec<(String, OdSubObject)>, n: usize) -> (agree:
    bool)
    requires
        slots_wf(slots@, subs@),
        1 <= n < 256,
        forall|sub: int| 1 <= sub <= n ==> (#[trigger] slots@[sub]) is Some,
    ensures
        agree == uniform_limits(slots_view(slots@, subs@), n as nat),
{
    let ghost table = slots_view(slots@, subs@);
    assert(slots@[1] is Some);
    let first: usize = slots[1].unwrap();
    assert(table[1] == Some(subs@[first as int].1));
    let mut k: usize = 1;
    while k < n
        invariant
            1 <= k <= n < 256,
            slots_wf(slots@, subs@),
            table == slots_view(slots@, subs@),
            forall|sub: int| 1 <= sub <= n ==> (#[trigger] slots@[sub]) is Some,
            first < subs@.len(),
            table[1] == Some(subs@[first as int].1),
            uniform_limits(table, k as nat),
        decreases n - k,
    {
        assert(slots@[k + 1] is Some);
        let at: usize = slots[k + 1].unwrap();
        assert(table[k + 1] == Some(subs@[at as int].1));
        if !same(subs[at].1.low_limit.as_str(), subs[first].1.low_limit.as_str()) || !same(
            subs[at].1.high_limit.as_str(),
            subs[first].1.high_limit.as_str(),
        ) {
            return false;
        }
        k += 1;
    }
    true
}

/// Render the checks for the limits of the elements of an array.
fn limit_elements(
    slots: &Vec<Option<usize>>,
    subs: &Vec<(String, OdSubObject)>,
    n: usize,
    scalar: &Scalar,
    ctx: &str,
) -> (lines: Result<String, String>)
    requires
        slots_wf(slots@, subs@),
        1 <= n < 256,
        forall|sub: int| 1 <= sub <= n ==> (#[trigger] slots@[sub]) is Some,
    ensures
        text_result(lines) == array_limits(slots_view(slots@, subs@), n as nat, scalar@, ctx@),
{
    let ghost table = slots_view(slots@, subs@);
    if limits_agree(slots, subs, n) {
        assert(slots@[1] is Some);
        let first: usize = slots[1].unwrap();
        assert(table[1] == Some(subs@[first as int].1));
        return limit_lines(&subs[first].1, "", scalar, true, ctx);
    }
    let mut lines = String::new();
    let mut k: usize = 0;
    assert(lines@ =~= Seq::<char>::empty());
    while k < n
        invariant
            k <= n < 256,
            slots_wf(slots@, subs@),
            table == slots_view(slots@, subs@),
            !uniform_limits(table, n as nat),
            forall|sub: int| 1 <= sub <= n ==> (#[trigger] slots@[sub]) is Some,
            element_limits(table, k as nat, scalar@, ctx@) == Ok::<Seq<char>, Seq<char>>(lines@),
        decreases n - k,
    {
        assert(slots@[k + 1] is Some);
        let at: usize = slots[k + 1].unwrap();
        assert(table[k + 1] == Some(subs@[at as int].1));
        let mut guard = "s == ".to_owned();
        guard.append(hex_literal_text((k + 1) as u128, 2).as_str());
        guard.append(" && ");
        match limit_lines(&subs[at].1, guard.as_str(), scalar, true, ctx) {
            Ok(own) => lines.append(own.as_str()),
            Err(e) => {
                proof {
                    lemma_bad_limits(table, n as nat, scalar@, ctx@, (k + 1) as nat);
                }
                return Err(e);
            },
        }
        k += 1;
    }
    Ok(lines)
}

/// Generate an ARRAY object: one count field (sub 00) and one `[T; N]` field
/// for the elements (subs 01..=N, uniform type).
fn emit_array(out: &mut Output, index: u16, obj: &OdObject, slots: &Vec<Option<usize>>) -> (done:
    Result<(), String>)
    requires
        slots_wf(slots@, obj.sub_objects@),
    ensures
        emitted(
            array_object(old(out)@, index, *obj, slots_view(slots@, obj.sub_objects@)),
            array_left(old(out)@, index, *obj, slots_view(slots@, obj.sub_objects@)),
            done,
            final(out)@,
        ),
{
    let ghost table = slots_view(slots@, obj.sub_objects@);
    let mut ctx = "array object ".to_owned();
    ctx.append(hex_literal_text(index as u128, 4).as_str());
    ctx.append(" (");
    ctx.append(obj.name.as_str());
    ctx.append(")");
    match slots[0] {
        None => {
            ctx.append(": missing sub 00");
            return Err(ctx);
        },
        Some(at) => {
            match emit_sub(out, index, 0, obj, &obj.sub_objects[at].1) {
                Ok(()) => {},
                Err(e) => return Err(e),
            }
        },
    }
    let n: usize = count_slots(slots, &obj.sub_objects) - 1;
    if n == 0 {
        return Ok(());
    }
    let first = match slots[1] {
        None => {
            ctx.append(": elements must start at sub 01");
            return Err(ctx);
        },
        Some(at) => &obj.sub_objects[at].1,
    };
    match check_elements(slots, &obj.sub_objects, first, n, ctx.as_str()) {
        Ok(()) => {},
        Err(e) => return Err(e),
    }
    emit_elements(out, index, obj, slots, first, n, ctx)
}

/// Generate the elements of an ARRAY object.
fn emit_elements(
    out: &mut Output,
    index: u16,
    obj: &OdObject,
    slots: &Vec<Option<usize>>,
    first: &OdSubObject,
    n: usize,
    ctx: String,
) -> (done: Result<(), String>)
    requires
        slots_wf(slots@, obj.sub_objects@),
        1 <= n < 256,
        forall|sub: int| 1 <= sub <= n ==> (#[trigger] slots@[sub]) is Some,
    ensures
        emitted(
            array_elements(
                old(out)@,
                index,
                *obj,
                slots_view(slots@, obj.sub_objects@),
                *first,
                n as nat,
                ctx@,
            ),
            old(out)@,
            done,
            final(out)@,
        ),
{
    let scalar = match scalar_type(first.data_type.as_str()) {
        Some(scalar) => scalar,
        None => {
            let shown = quoted(first.data_type.as_str());
            return Err(complaint(ctx.as_str(), ": unsupported element type ", shown.as_str()));
        },
    };
    let field = field_name(index, obj.ident_source(), out);
    let (inits, uses_node_id) = match init_elements(
        slots,
        &obj.sub_objects,
        n,
        &scalar,
        ctx.as_str(),
    ) {
        Ok(inits) => inits,
        Err(e) => return Err(e),
    };
    let sdo = match sdo_access(first.sdo.as_str(), ctx.as_str()) {
        Ok(sdo) => sdo,
        Err(e) => return Err(e),
    };
    let pdo = match pdo_access(first.pdo.as_str(), ctx.as_str()) {
        Ok(pdo) => pdo,
        Err(e) => return Err(e),
    };
    let index_text = hex_literal_text(index as u128, 4);
    let n_literal = hex_literal_text(n as u128, 2);
    let n_text = decimal_text(n as u128);
    let mut pat = "(".to_owned();
    pat.append(index_text.as_str());
    pat.append(", s @ 0x01..=");
    pat.append(n_literal.as_str());
    pat.append(")");
    let mut range = "(".to_owned();
    range.append(index_text.as_str());
    range.append(", 0x01..=");
    range.append(n_literal.as_str());
    range.append(")");
    let mut place = field.clone();
    place.append("[(s - 1) as usize]");
    let write = if sdo.writable {
        match limit_elements(slots, &obj.sub_objects, n, &scalar, ctx.as_str()) {
            Ok(limits) => write_arm_text(pat.as_str(), &scalar, limits.as_str(), place.as_str()),
            Err(e) => return Err(e),
        }
    } else {
        error_arm_text(range.as_str(), "ReadOnly")
    };
    let read = scalar_read_arm_text(pat.as_str(), place.as_str(), sdo.readable, range.as_str());
    let size = decimal_text(scalar.size as u128);
    let info = info_arm_text(range.as_str(), scalar.data_type, sdo.variant, pdo, size.as_str());
    let mut doc = index_text;
    doc.append(":01..=");
    doc.append(hex_text(n as u128, 2, true).as_str());
    doc.append(" ");
    doc.append(obj.name.as_str());
    doc.append(" — ");
    doc.append(first.data_type.as_str());
    doc.append("[");
    doc.append(n_text.as_str());
    doc.append("], ");
    doc.append(sdo_label(first.sdo.as_str()));
    let mut type_decl = "[".to_owned();
    type_decl.append(scalar.rust);
    type_decl.append("; ");
    type_decl.append(n_text.as_str());
    type_decl.append("]");
    let init = array_init_text(&inits);
    out.push_field(Field { doc, name: field, type_decl, init }, uses_node_id);
    out.push_arms(info, read, write);
    Ok(())
}

/// What is generated for the sub-objects of a RECORD object below the
/// sub-index `n`, in ascending order.
pub open spec fn record_subs(
    out: OutputSpec,
    index: u16,
    obj: OdObject,
    table: Seq<Option<OdSubObject>>,
    n: nat,
) -> Result<OutputSpec, Seq<char>>
    decreases n,
{
    if n == 0 {
        Ok(out)
    } else {
        match record_subs(out, index, obj, table, (n - 1) as nat) {
            Err(e) => Err(e),
            Ok(out) => match table[n - 1] {
                None => Ok(out),
                Some(sub_obj) => any_sub(out, index, (n - 1) as u8, obj, sub_obj),
            },
        }
    }
}

/// What is left in the output when a RECORD object cannot be generated: the
/// sub-objects before the one at fault.
pub open spec fn record_left(
    out: OutputSpec,
    index: u16,
    obj: OdObject,
    table: Seq<Option<OdSubObject>>,
    n: nat,
) -> OutputSpec
    decreases n,
{
    match record_subs(out, index, obj, table, n) {
        Ok(after) => after,
        Err(_) => if n == 0 {
            out
        } else {
            record_left(out, index, obj, table, (n - 1) as nat)
        },
    }
}

/// A sub-object that cannot be generated is reported, whatever follows it.
proof fn lemma_bad_record(
    out: OutputSpec,
    index: u16,
    obj: OdObject,
    table: Seq<Option<OdSubObject>>,
    n: nat,
    k: nat,
)
    requires
        k <= n,
        record_subs(out, index, obj, table, k) is Err,
    ensures
        record_subs(out, index, obj, table, n) == record_subs(out, index, obj, table, k),
        record_left(out, index, obj, table, n) == record_left(out, index, obj, table, k),
    decreases n,
{
    if k < n {
        lemma_bad_record(out, index, obj, table, (n - 1) as nat, k);
    }
}

/// Generate a RECORD object: every sub-object on its own.
fn emit_record(out: &mut Output, index: u16, obj: &OdObject, slots: &Vec<Option<usize>>) -> (done:
    Result<(), String>)
    requires
        slots_wf(slots@, obj.sub_objects@),
    ensures
        emitted(
            record_subs(old(out)@, index, *obj, slots_view(slots@, obj.sub_objects@), 256),
            record_left(old(out)@, index, *obj, slots_view(slots@, obj.sub_objects@), 256),
            done,
            final(out)@,
        ),
{
    let ghost start = out@;
    let ghost table = slots_view(slots@, obj.sub_objects@);
    let mut k: u16 = 0;
    while k < 256
        invariant
            k <= 256,
            start == old(out)@,
            slots_wf(slots@, obj.sub_objects@),
            table == slots_view(slots@, obj.sub_objects@),
            record_subs(start, index, *obj, table, k as nat) == Ok::<OutputSpec, Seq<char>>(out@),
        decreases 256 - k,
    {
        if let Some(at) = slots[k as usize] {
            let ghost before = out@;
            proof {
                let sub_obj = obj.sub_objects@[at as int].1;
                assert(table[k as int] == Some(sub_obj));
                assert(record_subs(start, index, *obj, table, (k + 1) as nat) == any_sub(
                    before,
                    index,
                    k as u8,
                    *obj,
                    sub_obj,
                ));
            }
            match emit_sub(out, index, k as u8, obj, &obj.sub_objects[at].1) {
                Ok(()) => {},
                Err(e) => {
                    proof {
                        lemma_bad_record(start, index, *obj, table, 256, (k + 1) as nat);
                        assert(record_left(start, index, *obj, table, k as nat) == before);
                    }
                    return Err(e);
                },
            }
        } else {
            assert(table[k as int] is None);
        }
        k += 1;
    }
    Ok(())
}

/// What is generated for one object.
#[verifier::opaque]
pub open spec fn object_output(
    out: OutputSpec,
    index: u16,
    index_text: Seq<char>,
    obj: OdObject,
    table: Seq<Option<OdSubObject>>,
) -> Result<OutputSpec, Seq<char>> {
    if obj.object_type@ == "OBJECT_TYPE_VAR"@ {
        match table[0] {
            None => Err("VAR object "@ + index_text + " has no sub 00"@),
            Some(sub_obj) => any_sub(out, index, 0, obj, sub_obj),
        }
    } else if obj.object_type@ == "OBJECT_TYPE_ARRAY"@ {
        array_object(out, index, obj, table)
    } else if obj.object_type@ == "OBJECT_TYPE_RECORD"@ {
        record_subs(out, index, obj, table, 256)
    } else {
        Err("object "@ + index_text + ": unknown object type "@ + debug_text(obj.object_type@))
    }
}

/// What is left in the output when an object cannot be generated.
pub open spec fn object_left(
    out: OutputSpec,
    index: u16,
    obj: OdObject,
    table: Seq<Option<OdSubObject>>,
) -> OutputSpec {
    if obj.object_type@ == "OBJECT_TYPE_VAR"@ {
        out
    } else if obj.object_type@ == "OBJECT_TYPE_ARRAY"@ {
        array_left(out, index, obj, table)
    } else if obj.object_type@ == "OBJECT_TYPE_RECORD"@ {
        record_left(out, index, obj, table, 256)
    } else {
        out
    }
}

fn emit_object(
    out: &mut Output,
    index: u16,
    index_text: &str,
    obj: &OdObject,
    slots: &Vec<Option<usize>>,
) -> (done: Result<(), String>)
    requires
        slots_wf(slots@, obj.sub_objects@),
    ensures
        emitted(
            object_output(
                old(out)@,
                index,
                index_text@,
                *obj,
                slots_view(slots@, obj.sub_objects@),
            ),
            object_left(old(out)@, index, *obj, slots_view(slots@, obj.sub_objects@)),
            done,
            final(out)@,
        ),
{
    proof {
        reveal(object_output);
    }
    let object_type = obj.object_type.as_str();
    if same(object_type, "OBJECT_TYPE_VAR") {
        match slots[0] {
            Some(at) => emit_sub(out, index, 0, obj, &obj.sub_objects[at].1),
            None => {
                let mut e = "VAR object ".to_owned();
                e.append(index_text);
                e.append(" has no sub 00");
                Err(e)
            },
        }
    } else if same(object_type, "OBJECT_TYPE_ARRAY") {
        emit_array(out, index, obj, slots)
    } else if same(object_type, "OBJECT_TYPE_RECORD") {
        emit_record(out, index, obj, slots)
    } else {
        let mut place = "object ".to_owned();
        place.append(index_text);
        Err(complaint(place.as_str(), ": unknown object type ", quoted(object_type).as_str()))
    }
}

/// The arm for an unknown sub-index of an existing object. It comes directly
/// after the object's own arms, so it cannot shadow them.
pub open spec fn unknown_sub_arm(index: u16) -> Seq<char> {
    "("@ + hex_literal(index as nat, 4) + ", _) => Err(OdError::SubIndexNotFound),"@
}

fn unknown_sub_arm_text(index: u16) -> (arm: String)
    ensures
        arm@ == unknown_sub_arm(index),
{
    let mut arm = "(".to_owned();
    arm.append(hex_literal_text(index as u128, 4).as_str());
    arm.append(", _) => Err(OdError::SubIndexNotFound),");
    arm
}

/// What is generated for a list of objects: the parts of the code and the
/// object counts, or the first error.
pub open spec fn objects_output(objects: Seq<(String, OdObject)>) -> Result<
    (OutputSpec, Seq<(Seq<char>, nat)>),
    Seq<char>,
>
    decreases objects.len(),
{
    if objects.len() == 0 {
        Ok((empty_output(), Seq::empty()))
    } else {
        let key = objects.last().0@;
        let obj = objects.last().1;
        match objects_output(objects.drop_last()) {
            Err(e) => Err(e),
            Ok((out, counts)) => if obj.disabled {
                Ok((out, counts))
            } else {
                match unsigned_value(key, 16, 0xFFFF) {
                    None => Err("invalid object index"@ + " "@ + debug_text(key)),
                    Some(index) => match sub_table(key, obj.sub_objects@) {
                        Err(e) => Err(e),
                        Ok(table) => match object_output(out, index as u16, key, obj, table) {
                            Err(e) => Err(e),
                            Ok(out) => Ok(
                                (
                                    with_arms(
                                        out,
                                        unknown_sub_arm(index as u16),
                                        unknown_sub_arm(index as u16),
                                        unknown_sub_arm(index as u16),
                                    ),
                                    if obj.count_label@.len() == 0 {
                                        counts
                                    } else {
                                        counted(counts, obj.count_label@)
                                    },
                                ),
                            ),
                        },
                    },
                }
            },
        }
    }
}

/// An object that cannot be generated is reported, whatever follows it.
proof fn lemma_bad_object(objects: Seq<(String, OdObject)>, i: int)
    requires
        0 <= i < objects.len(),
        objects_output(objects.take(i + 1)) is Err,
    ensures
        objects_output(objects) == objects_output(objects.take(i + 1)),
    decreases objects.len(),
{
    if i + 1 < objects.len() {
        assert(objects.drop_last().take(i + 1) =~= objects.take(i + 1));
        lemma_bad_object(objects.drop_last(), i);
    } else {
        assert(objects.take(i + 1) =~= objects);
    }
}

/// The complete Rust module source for a device description, or the first
/// error in it.
pub open spec fn generated(device: CanOpenDevice) -> Result<Seq<char>, Seq<char>> {
    match objects_output(device.objects@) {
        Err(e) => Err(e),
        Ok((out, counts)) => Ok(module_text(device.device_info.product_name@, out, counts)),
    }
}

/// Generate the complete Rust module source for a device description.
pub fn generate(device: &CanOpenDevice) -> (code: Result<String, String>)
    ensures
        text_result(code) == generated(*device),
{
    let mut out = Output::new();
    let mut counts: Vec<(String, usize)> = Vec::new();
    let ghost objects = device.objects@;
    let mut i: usize = 0;
    proof {
        assert(objects.take(0) =~= Seq::empty());
        assert(counts_view(counts@) =~= Seq::empty());
    }
    while i < device.objects.len()
        invariant
            i <= objects.len(),
            objects == device.objects@,
            objects_output(objects.take(i as int)) == Ok::<
                (OutputSpec, Seq<(Seq<char>, nat)>),
                Seq<char>,
            >((out@, counts_view(counts@))),
            forall|k: int| 0 <= k < counts@.len() ==> (#[trigger] counts@[k]).1 <= i,
        decreases objects.len() - i,
    {
        let obj = &device.objects[i].1;
        let key = device.objects[i].0.as_str();
        proof {
            let here = objects.take(i + 1);
            assert(here.drop_last() =~= objects.take(i as int));
            assert(here.last() == objects[i as int]);
        }
        if !obj.disabled {
            let index: u16 = match read_unsigned(key, 16, 0xFFFF) {
                Some(index) => index as u16,
                None => {
                    proof {
                        lemma_bad_object(objects, i as int);
                    }
                    return Err(complaint("invalid object index", " ", quoted(key).as_str()));
                },
            };
            if !obj.count_label.as_str().is_empty() {
                count_label(&mut counts, obj.count_label.as_str(), i);
            }
            let slots = match sub_slots(key, &obj.sub_objects) {
                Ok(slots) => slots,
                Err(e) => {
                    proof {
                        lemma_bad_object(objects, i as int);
                    }
                    return Err(e);
                },
            };
            match emit_object(&mut out, index, key, obj, &slots) {
                Ok(()) => {},
                Err(e) => {
                    proof {
                        lemma_bad_object(objects, i as int);
                    }
                    return Err(e);
                },
            }
            out.push_arms(
                unknown_sub_arm_text(index),
                unknown_sub_arm_text(index),
                unknown_sub_arm_text(index),
            );
        }
        i += 1;
    }
    assert(objects.take(i as int) =~= objects);
    Ok(render(device, &out, &counts))
}

} // verus!

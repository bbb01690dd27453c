//! What the generated interface text is, stated over the JSON model.
use vstd::prelude::*;
use crate::json::{JsonV, field, text_of, member_index};
use crate::text::join;
use crate::tool::ToolV;

verus! {

/// The lowercase hex digit of `n`, for `n < 16`.
pub open spec fn hex_digit(n: int) -> char {
    "0123456789abcdef"@[n]
}

/// One character inside a JSON string literal: quote and backslash escaped,
/// the short escapes for backspace, tab, newline, form feed and carriage return,
/// `\u00XX` for the other control characters, anything else as it is.
pub open spec fn json_escaped_char(c: char) -> Seq<char> {
    if c == '"' {
        seq!['\\', '"']
    } else if c == '\\' {
        seq!['\\', '\\']
    } else if c == '\u{8}' {
        seq!['\\', 'b']
    } else if c == '\t' {
        seq!['\\', 't']
    } else if c == '\n' {
        seq!['\\', 'n']
    } else if c == '\u{c}' {
        seq!['\\', 'f']
    } else if c == '\r' {
        seq!['\\', 'r']
    } else if (c as u32) < 0x20 {
        seq!['\\', 'u', '0', '0', hex_digit((c as u32) as int / 16), hex_digit((c as u32) as int % 16)]
    } else {
        seq![c]
    }
}

/// The characters of `s`, each escaped for a JSON string literal.
pub open spec fn json_escaped(s: Seq<char>) -> Seq<char>
    decreases s.len(),
{
    if s.len() == 0 {
        Seq::empty()
    } else {
        json_escaped(s.drop_last()) + json_escaped_char(s.last())
    }
}

/// `s` as a JSON string literal.
pub open spec fn json_quoted(s: Seq<char>) -> Seq<char> {
    seq!['"'] + json_escaped(s) + seq!['"']
}

/// Relies on `serde_json::to_string` on a `str`: the string as a JSON string
/// literal, with serde_json's escapes (see `json_escaped_char`). Serialising a
/// string into memory does not fail.
#[verifier::external_body]
pub(crate) fn quote_json_string(s: &str) -> (r: String)
    ensures
        r@ == json_quoted(s@),
{
    match serde_json::to_string(s) {
        Ok(t) => t,
        Err(_) => String::new(),
    }
}

/// Whether `c` is kept as it is in an identifier.
pub open spec fn is_ident_char(c: char) -> bool {
    ('a' <= c && c <= 'z') || ('A' <= c && c <= 'Z') || ('0' <= c && c <= '9') || c == '_'
}

pub open spec fn is_digit(c: char) -> bool {
    '0' <= c && c <= '9'
}

/// `s` as an identifier: characters outside `[A-Za-z0-9_]` become `_`, a leading
/// digit is preceded by `_`, and the empty name becomes `_`.
pub open spec fn sanitize(s: Seq<char>) -> Seq<char> {
    if s.len() == 0 {
        seq!['_']
    } else {
        let body = s.map_values(|c: char| if is_ident_char(c) { c } else { '_' });
        if is_digit(s[0]) {
            seq!['_'] + body
        } else {
            body
        }
    }
}

/// `s` made safe inside a block comment: `*/` becomes `*\/` and a newline a space.
pub open spec fn escape(s: Seq<char>) -> Seq<char>
    decreases s.len(),
{
    if s.len() == 0 {
        Seq::empty()
    } else if s.len() >= 2 && s[0] == '*' && s[1] == '/' {
        seq!['*', '\\', '/'] + escape(s.subrange(2, s.len() as int))
    } else if s[0] == '\n' {
        seq![' '] + escape(s.drop_first())
    } else {
        seq![s[0]] + escape(s.drop_first())
    }
}

/// The pieces of `s` between dots; `n` dots give `n + 1` pieces.
pub open spec fn split_dots(s: Seq<char>) -> Seq<Seq<char>>
    decreases s.len(),
{
    if s.len() == 0 {
        seq![Seq::empty()]
    } else {
        let p = split_dots(s.drop_last());
        if s.last() == '.' {
            p.push(Seq::empty())
        } else {
            p.update(p.len() - 1, p.last().push(s.last()))
        }
    }
}

pub proof fn lemma_split_dots_nonempty(s: Seq<char>)
    ensures
        split_dots(s).len() >= 1,
    decreases s.len(),
{
    if s.len() > 0 {
        lemma_split_dots_nonempty(s.drop_last());
    }
}

pub open spec fn sanitize_all(parts: Seq<Seq<char>>) -> Seq<Seq<char>> {
    parts.map_values(|p: Seq<char>| sanitize(p))
}

/// The namespace identifier of a dotted name.
pub open spec fn namespace_of(name: Seq<char>) -> Seq<char> {
    sanitize(split_dots(name)[0])
}

/// The leaf identifier of a dotted name: every piece after the first, sanitised and
/// joined with `_`.
pub open spec fn leaf_of(name: Seq<char>) -> Seq<char> {
    join(sanitize_all(split_dots(name).drop_first()), seq!['_'])
}

/// The path by which a script reaches the tool named `name`.
pub open spec fn access_path(name: Seq<char>) -> Seq<char> {
    if name.contains('.') {
        namespace_of(name) + seq!['.'] + leaf_of(name)
    } else {
        sanitize(name)
    }
}

/// The type named in a schema's `type` member.
pub open spec fn type_of(schema: JsonV) -> Option<Seq<char>> {
    text_of(field(schema, "type"@))
}

/// A known JSON type name as a type expression.
pub open spec fn mapped_type(t: Seq<char>) -> Seq<char> {
    if t == "string"@ {
        "string"@
    } else if t == "number"@ || t == "integer"@ {
        "number"@
    } else if t == "boolean"@ {
        "boolean"@
    } else if t == "null"@ {
        "null"@
    } else if t == "object"@ {
        "object"@
    } else if t == "array"@ {
        "any[]"@
    } else {
        "any"@
    }
}

/// One enum value as a literal type; empty for values that have none.
pub open spec fn enum_literal(v: JsonV) -> Seq<char> {
    match v {
        JsonV::Str(s) => json_quoted(s),
        JsonV::Number(n) => n,
        JsonV::Bool(b) => if b { "true"@ } else { "false"@ },
        JsonV::Null => "null"@,
        _ => Seq::empty(),
    }
}

/// The non-empty literals of `vals`, in order.
pub open spec fn enum_literals(vals: Seq<JsonV>) -> Seq<Seq<char>>
    decreases vals.len(),
{
    if vals.len() == 0 {
        Seq::empty()
    } else {
        let p = enum_literals(vals.drop_last());
        let l = enum_literal(vals.last());
        if l.len() > 0 {
            p.push(l)
        } else {
            p
        }
    }
}

/// The string members of a type-name list, each as a type expression.
pub open spec fn mapped_types(vals: Seq<JsonV>) -> Seq<Seq<char>>
    decreases vals.len(),
{
    if vals.len() == 0 {
        Seq::empty()
    } else {
        let p = mapped_types(vals.drop_last());
        match vals.last() {
            JsonV::Str(t) => p.push(mapped_type(t)),
            _ => p,
        }
    }
}

/// The strings listed in `vals`, in order.
pub open spec fn strings_in(vals: Seq<JsonV>) -> Seq<Seq<char>>
    decreases vals.len(),
{
    if vals.len() == 0 {
        Seq::empty()
    } else {
        let p = strings_in(vals.drop_last());
        match vals.last() {
            JsonV::Str(t) => p.push(t),
            _ => p,
        }
    }
}

/// The property names that a schema lists under `required`.
pub open spec fn required_names(schema: JsonV) -> Seq<Seq<char>> {
    match field(schema, "required"@) {
        Some(JsonV::Array(vals)) => strings_in(vals),
        _ => Seq::empty(),
    }
}

/// `?` for a property that is not required.
pub open spec fn optional_marker(required: Seq<Seq<char>>, key: Seq<char>) -> Seq<char> {
    if required.contains(key) {
        Seq::empty()
    } else {
        "?"@
    }
}

pub proof fn lemma_field_decreases(j: JsonV, key: Seq<char>)
    requires
        field(j, key) is Some,
    ensures
        decreases_to!(j => field(j, key)->Some_0),
{
    let m = j->Object_0;
    let i = member_index(m, key);
    assert(decreases_to!(j => m));
    assert(decreases_to!(m => m[i]));
    assert(decreases_to!(m[i] => m[i].1));
}

/// The inline type expression of a schema.
pub open spec fn ts_type(schema: JsonV) -> Seq<char>
    decreases schema,
    via ts_type_decreases
{
    match field(schema, "enum"@) {
        Some(JsonV::Array(vals)) => join(enum_literals(vals), " | "@),
        _ => match type_of(schema) {
            Some(t) => if t == "object"@ {
                match field(schema, "properties"@) {
                    Some(JsonV::Object(props)) => "{ "@ + join(
                        prop_entries(props, required_names(schema)),
                        "; "@,
                    ) + " }"@,
                    _ => "{ [key: string]: any }"@,
                }
            } else if t == "array"@ {
                match field(schema, "items"@) {
                    Some(JsonV::Array(arr)) => "("@ + type_union(arr) + ")[]"@,
                    Some(v) => "("@ + ts_type(v) + ")[]"@,
                    None => "any[]"@,
                }
            } else {
                mapped_type(t)
            },
            None => "any"@,
        },
    }
}

/// The inline types of `arr`, joined as a union.
pub open spec fn type_union(arr: Seq<JsonV>) -> Seq<char>
    decreases arr, 1int,
{
    join(type_parts(arr), " | "@)
}

/// The inline type of each element of `arr`.
pub open spec fn type_parts(arr: Seq<JsonV>) -> Seq<Seq<char>>
    decreases arr, 0int,
{
    Seq::new(arr.len(), |k: int| if 0 <= k < arr.len() { ts_type(arr[k]) } else { Seq::empty() })
}

/// The inline property entries of an object type.
pub open spec fn prop_entries(props: Seq<(Seq<char>, JsonV)>, req: Seq<Seq<char>>) -> Seq<Seq<char>>
    decreases props,
{
    Seq::new(
        props.len(),
        |k: int|
            if 0 <= k < props.len() {
                props[k].0 + optional_marker(req, props[k].0) + ": "@ + ts_type(props[k].1)
            } else {
                Seq::empty()
            },
    )
}

/// The text of a property's `description`, where it is a string.
pub open spec fn description_of(schema: JsonV) -> Option<Seq<char>> {
    text_of(field(schema, "description"@))
}

pub open spec fn any_member_line() -> Seq<char> {
    "    [key: string]: any;"@
}

/// The member lines of a namespaced interface body.
pub open spec fn content_lines(props: Seq<(Seq<char>, JsonV)>, req: Seq<Seq<char>>) -> Seq<Seq<char>>
    decreases props.len(),
{
    if props.len() == 0 {
        Seq::empty()
    } else {
        let p = content_lines(props.drop_last(), req);
        let (key, v) = props.last();
        let d = match description_of(v) {
            Some(d) => d,
            None => Seq::empty(),
        };
        let p2 = if d.len() > 0 {
            p.push("    /** "@ + escape(d) + " */"@)
        } else {
            p
        };
        p2.push("    "@ + key + optional_marker(req, key) + ": "@ + ts_type(v) + ";"@)
    }
}

/// The body of the interface that a schema describes, inside a namespace.
pub open spec fn object_content(schema: JsonV) -> Seq<char> {
    if type_of(schema) != Some("object"@) {
        any_member_line()
    } else {
        let lines = match field(schema, "properties"@) {
            Some(JsonV::Object(props)) => content_lines(props, required_names(schema)),
            _ => Seq::empty(),
        };
        if lines.len() == 0 {
            any_member_line()
        } else {
            join(lines, "\n"@)
        }
    }
}

/// One member of a top-level interface declaration.
pub open spec fn decl_line(key: Seq<char>, v: JsonV, req: Seq<Seq<char>>) -> Seq<char> {
    let d = match description_of(v) {
        Some(d) => "  /** "@ + escape(d) + " */\n"@,
        None => Seq::empty(),
    };
    d + "  "@ + key + optional_marker(req, key) + ": "@ + ts_type(v) + ";"@
}

pub open spec fn decl_lines(props: Seq<(Seq<char>, JsonV)>, req: Seq<Seq<char>>) -> Seq<Seq<char>> {
    Seq::new(
        props.len(),
        |k: int|
            if 0 <= k < props.len() {
                decl_line(props[k].0, props[k].1, req)
            } else {
                Seq::empty()
            },
    )
}

/// The declaration of an object schema under `name`.
pub open spec fn object_decl(schema: JsonV, name: Seq<char>) -> Seq<char> {
    match field(schema, "properties"@) {
        Some(JsonV::Object(props)) => "interface "@ + name + " {\n"@ + join(
            decl_lines(props, required_names(schema)),
            "\n"@,
        ) + "\n}"@,
        _ => "interface "@ + name + " {\n  [key: string]: any;\n}"@,
    }
}

/// `type <name> = <rhs>;`
pub open spec fn alias(name: Seq<char>, rhs: Seq<char>) -> Seq<char> {
    "type "@ + name + " = "@ + rhs + ";"@
}

/// The declaration of an array schema under `name`.
pub open spec fn array_decl(schema: JsonV, name: Seq<char>) -> Seq<char> {
    match field(schema, "items"@) {
        None => alias(name, "any[]"@),
        Some(JsonV::Array(arr)) => alias(name, "("@ + type_union(arr) + ")[]"@),
        Some(v) => alias(name, "("@ + ts_type(v) + ")[]"@),
    }
}

/// The declaration of a primitive schema under `name`; an `enum` gives a union of literals.
pub open spec fn primitive_decl(schema: JsonV, name: Seq<char>, base: Seq<char>) -> Seq<char> {
    match field(schema, "enum"@) {
        Some(JsonV::Array(vals)) => alias(name, join(enum_literals(vals), " | "@)),
        _ => alias(name, base),
    }
}

/// The declaration of a schema without a known single type.
pub open spec fn other_decl(schema: JsonV, name: Seq<char>) -> Seq<char> {
    match field(schema, "type"@) {
        Some(JsonV::Array(types)) => alias(name, join(mapped_types(types), " | "@)),
        _ => alias(name, "any"@),
    }
}

/// The top-level declaration of `schema` under `name`.
pub open spec fn schema_decl(schema: JsonV, name: Seq<char>) -> Seq<char> {
    match type_of(schema) {
        Some(t) => if t == "object"@ {
            object_decl(schema, name)
        } else if t == "array"@ {
            array_decl(schema, name)
        } else if t == "string"@ {
            primitive_decl(schema, name, "string"@)
        } else if t == "number"@ || t == "integer"@ {
            primitive_decl(schema, name, "number"@)
        } else if t == "boolean"@ {
            primitive_decl(schema, name, "boolean"@)
        } else if t == "null"@ {
            alias(name, "null"@)
        } else {
            other_decl(schema, name)
        },
        None => other_decl(schema, name),
    }
}

/// The output declaration inside a namespace.
pub open spec fn namespaced_output(leaf: Seq<char>, content: Seq<char>, is_async: bool) -> Seq<char> {
    if is_async {
        "  type "@ + leaf + "Output = Promise<"@ + leaf + "OutputBase>;\n\n  interface "@ + leaf
            + "OutputBase {\n"@ + content + "\n  }"@
    } else {
        "  interface "@ + leaf + "Output {\n"@ + content + "\n  }"@
    }
}

/// The declarations of a tool, before its trailing comment.
pub open spec fn interface_body(t: ToolV) -> Seq<char> {
    if t.name.contains('.') {
        let ns = namespace_of(t.name);
        let leaf = leaf_of(t.name);
        "namespace "@ + ns + " {\n  interface "@ + leaf + "Input {\n"@ + object_content(t.inputs)
            + "\n  }\n\n"@ + namespaced_output(leaf, object_content(t.outputs), t.is_async)
            + "\n}"@
    } else {
        let id = sanitize(t.name);
        let input = schema_decl(t.inputs, id + "Input"@);
        let output = if t.is_async {
            schema_decl(t.outputs, id + "OutputBase"@) + "\n\ntype "@ + id + "Output = Promise<"@
                + id + "OutputBase>;"@
        } else {
            schema_decl(t.outputs, id + "Output"@)
        };
        input + "\n\n"@ + output
    }
}

/// How a script calls the tool, as the trailing comment shows it.
pub open spec fn access_comment(t: ToolV) -> Seq<char> {
    if t.is_async {
        "await "@ + access_path(t.name)
    } else {
        access_path(t.name)
    }
}

/// The interface text of a tool: its declarations, then a comment with its
/// description, tags and access form.
pub open spec fn interface_text(t: ToolV) -> Seq<char> {
    interface_body(t) + "\n\n/**\n * "@ + escape(t.description) + "\n * Tags: "@ + escape(
        join(t.tags, ", "@),
    ) + "\n * Access as: "@ + access_comment(t) + "(args)\n */"@
}

#[via_fn]
proof fn ts_type_decreases(schema: JsonV) {
    if field(schema, "properties"@) is Some {
        lemma_field_decreases(schema, "properties"@);
    }
    if field(schema, "items"@) is Some {
        lemma_field_decreases(schema, "items"@);
    }
}

} // verus!

//! Interface text for tools: type declarations built from their JSON schemas.
use vstd::prelude::*;
use crate::json::{Json, jviews, mviews, lemma_container_view};
use crate::text::same_text;
use crate::schema_spec::{namespaced_output, interface_body, interface_text, alias, description_of, content_lines, object_content, decl_line, decl_lines, object_decl, array_decl, primitive_decl, other_decl, schema_decl, mapped_types, quote_json_string, enum_literal, enum_literals, strings_in, required_names, optional_marker, ts_type, type_union, type_parts, prop_entries, mapped_type, type_of, lemma_field_decreases, sanitize, escape, split_dots, lemma_split_dots_nonempty, sanitize_all, namespace_of, leaf_of, access_path, is_ident_char};
use crate::text::{join, views, push_char, push_text, chars_of, contains_char, join_strings, owned};
use crate::tool::{Tool, ToolV};
use crate::keyed::{entry_index, lemma_entry_index, lemma_entry_index_first, lemma_entry_index_none, lookup, store};

verus! {

/// `name` as an identifier (see `sanitize`).
pub fn sanitize_identifier(name: &str) -> (r: String)
    ensures
        r@ == sanitize(name@),
{
    let cs = chars_of(name);
    let mut r = String::new();
    if cs.len() == 0 {
        push_char(&mut r, '_');
        assert(r@ =~= sanitize(name@));
        return r;
    }
    let ghost body = name@.map_values(|c: char| if is_ident_char(c) { c } else { '_' });
    let lead = cs[0] >= '0' && cs[0] <= '9';
    if lead {
        push_char(&mut r, '_');
    }
    let ghost pre = r@;
    let mut i: usize = 0;
    while i < cs.len()
        invariant
            cs@ == name@,
            i <= cs@.len(),
            body == name@.map_values(|c: char| if is_ident_char(c) { c } else { '_' }),
            r@ == pre + body.subrange(0, i as int),
        decreases cs@.len() - i,
    {
        let c = cs[i];
        let ok = (c >= 'a' && c <= 'z') || (c >= 'A' && c <= 'Z') || (c >= '0' && c <= '9') || c
            == '_';
        if ok {
            push_char(&mut r, c);
        } else {
            push_char(&mut r, '_');
        }
        i = i + 1;
        assert(r@ =~= pre + body.subrange(0, i as int));
    }
    assert(body.subrange(0, cs@.len() as int) =~= body);
    assert(r@ =~= sanitize(name@));
    r
}

/// `text` made safe inside a block comment (see `escape`).
pub fn escape_comment(text: &str) -> (r: String)
    ensures
        r@ == escape(text@),
{
    let cs = chars_of(text);
    let n = cs.len();
    let mut r = String::new();
    let mut i: usize = 0;
    assert(text@.subrange(0, n as int) =~= text@);
    while i < n
        invariant
            cs@ == text@,
            n == cs@.len(),
            i <= n,
            r@ + escape(text@.subrange(i as int, n as int)) == escape(text@),
        decreases n - i,
    {
        let ghost rest = text@.subrange(i as int, n as int);
        if i + 1 < n && cs[i] == '*' && cs[i + 1] == '/' {
            push_char(&mut r, '*');
            push_char(&mut r, '\\');
            push_char(&mut r, '/');
            proof {
                assert(rest.subrange(2, rest.len() as int) =~= text@.subrange(i + 2, n as int));
                assert(r@ + escape(text@.subrange(i + 2, n as int)) =~= escape(text@));
            }
            i = i + 2;
        } else {
            if cs[i] == '\n' {
                push_char(&mut r, ' ');
            } else {
                push_char(&mut r, cs[i]);
            }
            proof {
                assert(rest.drop_first() =~= text@.subrange(i + 1, n as int));
                assert(r@ + escape(text@.subrange(i + 1, n as int)) =~= escape(text@));
            }
            i = i + 1;
        }
    }
    assert(text@.subrange(n as int, n as int) =~= Seq::<char>::empty());
    assert(r@ =~= escape(text@));
    r
}

/// The pieces of `name` between dots.
fn split_dotted(name: &str) -> (r: Vec<String>)
    ensures
        views(r@) == split_dots(name@),
{
    let cs = chars_of(name);
    let mut done: Vec<String> = Vec::new();
    let mut cur = String::new();
    let mut i: usize = 0;
    while i < cs.len()
        invariant
            cs@ == name@,
            i <= cs@.len(),
            views(done@).push(cur@) == split_dots(name@.subrange(0, i as int)),
        decreases cs@.len() - i,
    {
        let ghost prefix = name@.subrange(0, i as int);
        let ghost next = name@.subrange(0, i + 1);
        proof {
            assert(next.drop_last() =~= prefix);
            lemma_split_dots_nonempty(prefix);
        }
        if cs[i] == '.' {
            done.push(cur);
            cur = String::new();
            assert(views(done@).push(cur@) =~= split_dots(next));
        } else {
            push_char(&mut cur, cs[i]);
            assert(views(done@).push(cur@) =~= split_dots(next));
        }
        i = i + 1;
    }
    assert(name@.subrange(0, cs@.len() as int) =~= name@);
    done.push(cur);
    assert(views(done@) =~= split_dots(name@));
    done
}

/// The namespace and leaf identifiers of a dotted name.
fn dotted_parts(name: &str) -> (r: (String, String))
    ensures
        r.0@ == namespace_of(name@),
        r.1@ == leaf_of(name@),
{
    let pieces = split_dotted(name);
    proof {
        lemma_split_dots_nonempty(name@);
    }
    let ns = sanitize_identifier(pieces[0].as_str());
    let mut rest: Vec<String> = Vec::new();
    let mut i: usize = 1;
    while i < pieces.len()
        invariant
            views(pieces@) == split_dots(name@),
            1 <= i <= pieces@.len(),
            rest@.len() == i - 1,
            forall|k: int| 0 <= k < i - 1 ==> #[trigger] rest@[k]@ == sanitize(split_dots(name@)[k + 1]),
        decreases pieces@.len() - i,
    {
        let s = sanitize_identifier(pieces[i].as_str());
        assert(pieces@[i as int]@ == split_dots(name@)[i as int]);
        rest.push(s);
        i = i + 1;
    }
    assert(views(rest@) =~= sanitize_all(split_dots(name@).drop_first()));
    let leaf = join_strings(&rest, "_");
    assert("_"@ =~= seq!['_']) by {
        reveal_strlit("_");
    }
    (ns, leaf)
}

/// The namespace objects to walk through, and the member to bind the stub at, for
/// the tool named `name`: joined with dots they give its access path.
pub fn install_path(name: &str) -> (r: (Vec<String>, String))
    ensures
        r.0@.len() <= 1,
        name@.contains('.') ==> r.0@.len() == 1 && r.0@[0]@ == namespace_of(name@) && r.1@
            == leaf_of(name@),
        !name@.contains('.') ==> r.0@.len() == 0 && r.1@ == sanitize(name@),
        access_path(name@) == if r.0@.len() == 1 {
            r.0@[0]@ + seq!['.'] + r.1@
        } else {
            r.1@
        },
{
    if contains_char(name, '.') {
        let (ns, leaf) = dotted_parts(name);
        let mut v: Vec<String> = Vec::new();
        v.push(ns);
        (v, leaf)
    } else {
        (Vec::new(), sanitize_identifier(name))
    }
}

/// The access path of the tool named `name` (see `access_path`).
pub fn access_path_of(name: &str) -> (r: String)
    ensures
        r@ == access_path(name@),
{
    if contains_char(name, '.') {
        let (ns, leaf) = dotted_parts(name);
        let mut r = ns;
        push_char(&mut r, '.');
        push_text(&mut r, leaf.as_str());
        r
    } else {
        sanitize_identifier(name)
    }
}

/// One enum value as a literal type (see `enum_literal`).
fn enum_literal_text(v: &Json) -> (r: String)
    ensures
        r@ == enum_literal(v@),
{
    match v {
        Json::Str(s) => quote_json_string(s.as_str()),
        Json::Number(n) => n.clone(),
        Json::Bool(b) => if *b {
            owned("true")
        } else {
            owned("false")
        },
        Json::Null => owned("null"),
        _ => String::new(),
    }
}

/// The literal types of `vals`, joined as a union.
fn enum_union(vals: &Vec<Json>) -> (r: String)
    ensures
        r@ == join(enum_literals(jviews(vals@)), " | "@),
{
    let mut parts: Vec<String> = Vec::new();
    let mut i: usize = 0;
    while i < vals.len()
        invariant
            i <= vals@.len(),
            views(parts@) == enum_literals(jviews(vals@).subrange(0, i as int)),
        decreases vals@.len() - i,
    {
        let lit = enum_literal_text(&vals[i]);
        let ghost pre = jviews(vals@).subrange(0, i as int);
        let ghost next = jviews(vals@).subrange(0, i + 1);
        assert(next.drop_last() =~= pre);
        assert(next.last() == vals@[i as int]@);
        if lit.as_str().unicode_len() > 0 {
            parts.push(lit);
            assert(views(parts@) =~= enum_literals(next));
        }
        i = i + 1;
    }
    assert(jviews(vals@).subrange(0, vals@.len() as int) =~= jviews(vals@));
    join_strings(&parts, " | ")
}

/// The strings listed in `vals`.
fn strings_of(vals: &Vec<Json>) -> (r: Vec<String>)
    ensures
        views(r@) == strings_in(jviews(vals@)),
{
    let mut out: Vec<String> = Vec::new();
    let mut i: usize = 0;
    while i < vals.len()
        invariant
            i <= vals@.len(),
            views(out@) == strings_in(jviews(vals@).subrange(0, i as int)),
        decreases vals@.len() - i,
    {
        let ghost pre = jviews(vals@).subrange(0, i as int);
        let ghost next = jviews(vals@).subrange(0, i + 1);
        assert(next.drop_last() =~= pre);
        assert(next.last() == vals@[i as int]@);
        match &vals[i] {
            Json::Str(t) => {
                out.push(t.clone());
                assert(views(out@) =~= strings_in(next));
            },
            _ => {},
        }
        i = i + 1;
    }
    assert(jviews(vals@).subrange(0, vals@.len() as int) =~= jviews(vals@));
    out
}

/// The property names that `schema` lists as required.
fn required_list(schema: &Json) -> (r: Vec<String>)
    ensures
        views(r@) == required_names(schema@),
{
    match schema.get("required") {
        Some(v) => {
            proof {
                lemma_container_view(v);
            }
            match v {
                Json::Array(vals) => strings_of(vals),
                _ => Vec::new(),
            }
        },
        None => Vec::new(),
    }
}

/// Whether `names` holds `key`.
fn lists(names: &Vec<String>, key: &str) -> (r: bool)
    ensures
        r == views(names@).contains(key@),
{
    let mut i: usize = 0;
    while i < names.len()
        invariant
            i <= names@.len(),
            forall|k: int| 0 <= k < i ==> names@[k]@ != key@,
        decreases names@.len() - i,
    {
        if same_text(names[i].as_str(), key) {
            assert(views(names@)[i as int] == key@);
            return true;
        }
        i = i + 1;
    }
    assert(!views(names@).contains(key@)) by {
        if views(names@).contains(key@) {
            let k = choose|k: int| 0 <= k < views(names@).len() && views(names@)[k] == key@;
            assert(names@[k]@ == key@);
        }
    }
    false
}

/// `?` for a property that is not required.
fn marker(required: &Vec<String>, key: &str) -> (r: &'static str)
    ensures
        r@ == optional_marker(views(required@), key@),
{
    if lists(required, key) {
        proof {
            reveal_strlit("");
        }
        ""
    } else {
        "?"
    }
}

/// The text of `schema`'s `type` member, where it is a string.
fn type_text(schema: &Json) -> (r: Option<&str>)
    ensures
        match r {
            Some(t) => type_of(schema@) == Some(t@),
            None => type_of(schema@) is None,
        },
{
    match schema.get("type") {
        Some(v) => v.as_str(),
        None => None,
    }
}

/// A known JSON type name as a type expression (see `mapped_type`).
pub fn map_json_type_to_ts(schema_type: &str) -> (r: &'static str)
    ensures
        r@ == mapped_type(schema_type@),
{
    if same_text(schema_type, "string") {
        "string"
    } else if same_text(schema_type, "number") || same_text(schema_type, "integer") {
        "number"
    } else if same_text(schema_type, "boolean") {
        "boolean"
    } else if same_text(schema_type, "null") {
        "null"
    } else if same_text(schema_type, "object") {
        "object"
    } else if same_text(schema_type, "array") {
        "any[]"
    } else {
        "any"
    }
}

/// The inline types of `arr`, joined as a union.
fn union_of_types(arr: &Vec<Json>) -> (r: String)
    ensures
        r@ == type_union(jviews(arr@)),
    decreases jviews(arr@),
{
    let ghost jv = jviews(arr@);
    let mut parts: Vec<String> = Vec::new();
    let mut k: usize = 0;
    while k < arr.len()
        invariant
            k <= arr@.len(),
            jv == jviews(arr@),
            parts@.len() == k,
            forall|i: int| 0 <= i < k ==> #[trigger] parts@[i]@ == ts_type(jv[i]),
        decreases arr@.len() - k,
    {
        proof {
            assert(jv[k as int] == arr@[k as int]@);
            assert(decreases_to!(jv => jv[k as int]));
        }
        let t = json_schema_to_typescript_type(&arr[k]);
        parts.push(t);
        k = k + 1;
    }
    assert(views(parts@) =~= type_parts(jv));
    join_strings(&parts, " | ")
}

/// The inline property entries `key?: type` of an object type.
fn prop_entry_list(props: &Vec<(String, Json)>, required: &Vec<String>) -> (r: Vec<String>)
    ensures
        views(r@) == prop_entries(mviews(props@), views(required@)),
    decreases mviews(props@),
{
    let ghost mv = mviews(props@);
    let mut parts: Vec<String> = Vec::new();
    let mut k: usize = 0;
    while k < props.len()
        invariant
            k <= props@.len(),
            mv == mviews(props@),
            parts@.len() == k,
            forall|i: int|
                0 <= i < k ==> #[trigger] parts@[i]@ == mv[i].0 + optional_marker(
                    views(required@),
                    mv[i].0,
                ) + ": "@ + ts_type(mv[i].1),
        decreases props@.len() - k,
    {
        proof {
            assert(mv[k as int] == (props@[k as int].0@, props@[k as int].1@));
            assert(decreases_to!(mv => mv[k as int]));
            assert(decreases_to!(mv[k as int] => mv[k as int].1));
        }
        let mut line = props[k].0.clone();
        push_text(&mut line, marker(required, props[k].0.as_str()));
        push_text(&mut line, ": ");
        let t = json_schema_to_typescript_type(&props[k].1);
        push_text(&mut line, t.as_str());
        parts.push(line);
        k = k + 1;
    }
    assert(views(parts@) =~= prop_entries(mv, views(required@)));
    parts
}

/// The inline type expression of `schema` (see `ts_type`).
pub fn json_schema_to_typescript_type(schema: &Json) -> (r: String)
    ensures
        r@ == ts_type(schema@),
    decreases schema@,
{
    match schema.get("enum") {
        Some(v) => {
            proof {
                lemma_container_view(v);
            }
            match v {
                Json::Array(vals) => {
                    return enum_union(vals);
                },
                _ => {},
            }
        },
        None => {},
    }
    match type_text(schema) {
        Some(t) => {
            if same_text(t, "object") {
                match schema.get("properties") {
                    Some(pv) => {
                        proof {
                            lemma_container_view(pv);
                            lemma_field_decreases(schema@, "properties"@);
                        }
                        match pv {
                            Json::Object(props) => {
                                proof {
                                    assert(decreases_to!(pv@ => pv@->Object_0));
                                    assert(decreases_to!(schema@ => mviews(props@)));
                                }
                                let required = required_list(schema);
                                let entries = prop_entry_list(props, &required);
                                let mut r = owned("{ ");
                                let body = join_strings(&entries, "; ");
                                push_text(&mut r, body.as_str());
                                push_text(&mut r, " }");
                                r
                            },
                            _ => owned("{ [key: string]: any }"),
                        }
                    },
                    None => owned("{ [key: string]: any }"),
                }
            } else if same_text(t, "array") {
                let item = match schema.get("items") {
                    Some(v) => {
                        proof {
                            lemma_container_view(v);
                            lemma_field_decreases(schema@, "items"@);
                        }
                        match v {
                            Json::Array(arr) => {
                                proof {
                                    assert(decreases_to!(v@ => v@->Array_0));
                                    assert(decreases_to!(schema@ => jviews(arr@)));
                                }
                                union_of_types(arr)
                            },
                            _ => json_schema_to_typescript_type(v),
                        }
                    },
                    None => {
                        return owned("any[]");
                    },
                };
                let mut r = owned("(");
                push_text(&mut r, item.as_str());
                push_text(&mut r, ")[]");
                r
            } else {
                owned(map_json_type_to_ts(t))
            }
        },
        None => owned("any"),
    }
}

/// The text of `schema`'s `description` member, where it is a string.
fn description_text(schema: &Json) -> (r: Option<&str>)
    ensures
        match r {
            Some(d) => description_of(schema@) == Some(d@),
            None => description_of(schema@) is None,
        },
{
    match schema.get("description") {
        Some(v) => v.as_str(),
        None => None,
    }
}

/// The member lines of a namespaced interface body.
fn content_line_list(props: &Vec<(String, Json)>, required: &Vec<String>) -> (r: Vec<String>)
    ensures
        views(r@) == content_lines(mviews(props@), views(required@)),
{
    let mut lines: Vec<String> = Vec::new();
    let mut k: usize = 0;
    while k < props.len()
        invariant
            k <= props@.len(),
            views(lines@) == content_lines(mviews(props@).subrange(0, k as int), views(required@)),
        decreases props@.len() - k,
    {
        let ghost pre = mviews(props@).subrange(0, k as int);
        let ghost next = mviews(props@).subrange(0, k + 1);
        assert(next.drop_last() =~= pre);
        assert(next.last() == (props@[k as int].0@, props@[k as int].1@));
        let key = props[k].0.as_str();
        let v = &props[k].1;
        match description_text(v) {
            Some(d) => {
                if d.unicode_len() > 0 {
                    let mut line = owned("    /** ");
                    let e = escape_comment(d);
                    push_text(&mut line, e.as_str());
                    push_text(&mut line, " */");
                    lines.push(line);
                }
            },
            None => {},
        }
        let mut line = owned("    ");
        push_text(&mut line, key);
        push_text(&mut line, marker(required, key));
        push_text(&mut line, ": ");
        let t = json_schema_to_typescript_type(v);
        push_text(&mut line, t.as_str());
        push_text(&mut line, ";");
        lines.push(line);
        assert(views(lines@) =~= content_lines(next, views(required@)));
        k = k + 1;
    }
    assert(mviews(props@).subrange(0, props@.len() as int) =~= mviews(props@));
    lines
}

/// The body of the interface that `schema` describes, inside a namespace (see
/// `object_content`).
pub fn json_schema_to_object_content(schema: &Json) -> (r: String)
    ensures
        r@ == object_content(schema@),
{
    let is_object = match type_text(schema) {
        Some(t) => same_text(t, "object"),
        None => false,
    };
    if !is_object {
        return owned("    [key: string]: any;");
    }
    let required = required_list(schema);
    let lines = match schema.get("properties") {
        Some(pv) => {
            proof {
                lemma_container_view(pv);
            }
            match pv {
                Json::Object(props) => content_line_list(props, &required),
                _ => Vec::new(),
            }
        },
        None => Vec::new(),
    };
    if lines.len() == 0 {
        owned("    [key: string]: any;")
    } else {
        join_strings(&lines, "\n")
    }
}

/// The declaration of an object schema under `decl_name` (see `object_decl`).
pub fn object_schema_to_typescript(schema: &Json, decl_name: &str) -> (r: String)
    ensures
        r@ == object_decl(schema@, decl_name@),
{
    match schema.get("properties") {
        Some(pv) => {
            proof {
                lemma_container_view(pv);
            }
            match pv {
                Json::Object(props) => {
                    let required = required_list(schema);
                    let mut lines: Vec<String> = Vec::new();
                    let mut k: usize = 0;
                    while k < props.len()
                        invariant
                            k <= props@.len(),
                            lines@.len() == k,
                            forall|i: int|
                                0 <= i < k ==> #[trigger] lines@[i]@ == decl_line(
                                    mviews(props@)[i].0,
                                    mviews(props@)[i].1,
                                    views(required@),
                                ),
                        decreases props@.len() - k,
                    {
                        assert(mviews(props@)[k as int] == (props@[k as int].0@, props@[k as int].1@));
                        let key = props[k].0.as_str();
                        let v = &props[k].1;
                        let mut line = String::new();
                        match description_text(v) {
                            Some(d) => {
                                push_text(&mut line, "  /** ");
                                let e = escape_comment(d);
                                push_text(&mut line, e.as_str());
                                push_text(&mut line, " */\n");
                            },
                            None => {},
                        }
                        push_text(&mut line, "  ");
                        push_text(&mut line, key);
                        push_text(&mut line, marker(&required, key));
                        push_text(&mut line, ": ");
                        let t = json_schema_to_typescript_type(v);
                        push_text(&mut line, t.as_str());
                        push_text(&mut line, ";");
                        proof {
                            reveal_strlit("");
                            assert(line@ =~= decl_line(key@, v@, views(required@)));
                        }
                        lines.push(line);
                        k = k + 1;
                    }
                    assert(views(lines@) =~= decl_lines(mviews(props@), views(required@)));
                    let mut r = owned("interface ");
                    push_text(&mut r, decl_name);
                    push_text(&mut r, " {\n");
                    let body = join_strings(&lines, "\n");
                    push_text(&mut r, body.as_str());
                    push_text(&mut r, "\n}");
                    r
                },
                _ => any_interface(decl_name),
            }
        },
        None => any_interface(decl_name),
    }
}

fn any_interface(decl_name: &str) -> (r: String)
    ensures
        r@ == "interface "@ + decl_name@ + " {\n  [key: string]: any;\n}"@,
{
    let mut r = owned("interface ");
    push_text(&mut r, decl_name);
    push_text(&mut r, " {\n  [key: string]: any;\n}");
    r
}

/// `type <decl_name> = <rhs>;`
fn type_alias(decl_name: &str, rhs: &str) -> (r: String)
    ensures
        r@ == alias(decl_name@, rhs@),
{
    let mut r = owned("type ");
    push_text(&mut r, decl_name);
    push_text(&mut r, " = ");
    push_text(&mut r, rhs);
    push_text(&mut r, ";");
    r
}

/// The declaration of an array schema under `decl_name` (see `array_decl`).
pub fn array_schema_to_typescript(schema: &Json, decl_name: &str) -> (r: String)
    ensures
        r@ == array_decl(schema@, decl_name@),
{
    match schema.get("items") {
        None => type_alias(decl_name, "any[]"),
        Some(v) => {
            proof {
                lemma_container_view(v);
            }
            let item = match v {
                Json::Array(arr) => union_of_types(arr),
                _ => json_schema_to_typescript_type(v),
            };
            let mut rhs = owned("(");
            push_text(&mut rhs, item.as_str());
            push_text(&mut rhs, ")[]");
            type_alias(decl_name, rhs.as_str())
        },
    }
}

/// The declaration of a primitive schema under `decl_name` (see `primitive_decl`).
pub fn primitive_schema_to_typescript(schema: &Json, decl_name: &str, base_type: &str) -> (r: String)
    ensures
        r@ == primitive_decl(schema@, decl_name@, base_type@),
{
    match schema.get("enum") {
        Some(v) => {
            proof {
                lemma_container_view(v);
            }
            match v {
                Json::Array(vals) => {
                    let u = enum_union(vals);
                    type_alias(decl_name, u.as_str())
                },
                _ => type_alias(decl_name, base_type),
            }
        },
        None => type_alias(decl_name, base_type),
    }
}

/// The type names listed in `types`, each as a type expression.
fn mapped_type_list(types: &Vec<Json>) -> (r: Vec<String>)
    ensures
        views(r@) == mapped_types(jviews(types@)),
{
    let mut out: Vec<String> = Vec::new();
    let mut i: usize = 0;
    while i < types.len()
        invariant
            i <= types@.len(),
            views(out@) == mapped_types(jviews(types@).subrange(0, i as int)),
        decreases types@.len() - i,
    {
        let ghost pre = jviews(types@).subrange(0, i as int);
        let ghost next = jviews(types@).subrange(0, i + 1);
        assert(next.drop_last() =~= pre);
        assert(next.last() == types@[i as int]@);
        match &types[i] {
            Json::Str(t) => {
                out.push(owned(map_json_type_to_ts(t.as_str())));
                assert(views(out@) =~= mapped_types(next));
            },
            _ => {},
        }
        i = i + 1;
    }
    assert(jviews(types@).subrange(0, types@.len() as int) =~= jviews(types@));
    out
}

/// The declaration of a schema without a known single type (see `other_decl`).
fn other_schema_to_typescript(schema: &Json, decl_name: &str) -> (r: String)
    ensures
        r@ == other_decl(schema@, decl_name@),
{
    match schema.get("type") {
        Some(v) => {
            proof {
                lemma_container_view(v);
            }
            match v {
                Json::Array(types) => {
                    let names = mapped_type_list(types);
                    let u = join_strings(&names, " | ");
                    type_alias(decl_name, u.as_str())
                },
                _ => type_alias(decl_name, "any"),
            }
        },
        None => type_alias(decl_name, "any"),
    }
}

/// The top-level declaration of `schema` under `decl_name` (see `schema_decl`).
pub fn json_schema_to_typescript(schema: &Json, decl_name: &str) -> (r: String)
    ensures
        r@ == schema_decl(schema@, decl_name@),
{
    match type_text(schema) {
        Some(t) => {
            if same_text(t, "object") {
                object_schema_to_typescript(schema, decl_name)
            } else if same_text(t, "array") {
                array_schema_to_typescript(schema, decl_name)
            } else if same_text(t, "string") {
                primitive_schema_to_typescript(schema, decl_name, "string")
            } else if same_text(t, "number") || same_text(t, "integer") {
                primitive_schema_to_typescript(schema, decl_name, "number")
            } else if same_text(t, "boolean") {
                primitive_schema_to_typescript(schema, decl_name, "boolean")
            } else if same_text(t, "null") {
                type_alias(decl_name, "null")
            } else {
                other_schema_to_typescript(schema, decl_name)
            }
        },
        None => other_schema_to_typescript(schema, decl_name),
    }
}

/// The output declaration inside a namespace.
fn namespaced_output_text(leaf: &str, content: &str, is_async: bool) -> (r: String)
    ensures
        r@ == namespaced_output(leaf@, content@, is_async),
{
    let mut r = String::new();
    if is_async {
        push_text(&mut r, "  type ");
        push_text(&mut r, leaf);
        push_text(&mut r, "Output = Promise<");
        push_text(&mut r, leaf);
        push_text(&mut r, "OutputBase>;\n\n  interface ");
        push_text(&mut r, leaf);
        push_text(&mut r, "OutputBase {\n");
    } else {
        push_text(&mut r, "  interface ");
        push_text(&mut r, leaf);
        push_text(&mut r, "Output {\n");
    }
    push_text(&mut r, content);
    push_text(&mut r, "\n  }");
    assert(r@ =~= namespaced_output(leaf@, content@, is_async));
    r
}

/// `base` followed by `suffix`.
fn suffixed(base: &str, suffix: &str) -> (r: String)
    ensures
        r@ == base@ + suffix@,
{
    let mut r = owned(base);
    push_text(&mut r, suffix);
    r
}

/// The declarations of `tool`, before its trailing comment.
fn interface_body_text(tool: &Tool) -> (r: String)
    ensures
        r@ == interface_body(tool@),
{
    let name = tool.name.as_str();
    if contains_char(name, '.') {
        let (ns, leaf) = dotted_parts(name);
        let input_content = json_schema_to_object_content(&tool.inputs);
        let output_content = json_schema_to_object_content(&tool.outputs);
        let out = namespaced_output_text(leaf.as_str(), output_content.as_str(), tool.is_async);
        let mut r = owned("namespace ");
        push_text(&mut r, ns.as_str());
        push_text(&mut r, " {\n  interface ");
        push_text(&mut r, leaf.as_str());
        push_text(&mut r, "Input {\n");
        push_text(&mut r, input_content.as_str());
        push_text(&mut r, "\n  }\n\n");
        push_text(&mut r, out.as_str());
        push_text(&mut r, "\n}");
        r
    } else {
        let id = sanitize_identifier(name);
        let input_name = suffixed(id.as_str(), "Input");
        let input = json_schema_to_typescript(&tool.inputs, input_name.as_str());
        let output = if tool.is_async {
            let base_name = suffixed(id.as_str(), "OutputBase");
            let mut o = json_schema_to_typescript(&tool.outputs, base_name.as_str());
            push_text(&mut o, "\n\ntype ");
            push_text(&mut o, id.as_str());
            push_text(&mut o, "Output = Promise<");
            push_text(&mut o, id.as_str());
            push_text(&mut o, "OutputBase>;");
            o
        } else {
            let output_name = suffixed(id.as_str(), "Output");
            json_schema_to_typescript(&tool.outputs, output_name.as_str())
        };
        let mut r = input;
        push_text(&mut r, "\n\n");
        push_text(&mut r, output.as_str());
        r
    }
}

/// The interface text of `tool` (see `interface_text`).
pub fn render_interface(tool: &Tool) -> (r: String)
    ensures
        r@ == interface_text(tool@),
{
    let mut r = interface_body_text(tool);
    push_text(&mut r, "\n\n/**\n * ");
    let d = escape_comment(tool.description.as_str());
    push_text(&mut r, d.as_str());
    push_text(&mut r, "\n * Tags: ");
    let tags = join_strings(&tool.tags, ", ");
    let t = escape_comment(tags.as_str());
    push_text(&mut r, t.as_str());
    push_text(&mut r, "\n * Access as: ");
    if tool.is_async {
        push_text(&mut r, "await ");
    }
    let path = access_path_of(tool.name.as_str());
    push_text(&mut r, path.as_str());
    push_text(&mut r, "(args)\n */");
    assert(r@ =~= interface_text(tool@));
    r
}

/// Interface texts already produced, keyed by tool name, each with the
/// descriptor it was produced from.
pub struct ToolInterfaceCache {
    entries: Vec<(String, (Tool, String))>,
}

impl ToolInterfaceCache {
    pub closed spec fn view(&self) -> Seq<(Seq<char>, (ToolV, Seq<char>))> {
        Seq::new(
            self.entries@.len(),
            |i: int| (self.entries@[i].0@, (self.entries@[i].1.0@, self.entries@[i].1.1@)),
        )
    }

    /// Every stored text is the interface text of the descriptor stored with it.
    pub open spec fn wf(&self) -> bool {
        forall|i: int| 0 <= i < self@.len() ==> #[trigger] self@[i].1.1 == interface_text(self@[i].1.0)
    }

    pub fn new() -> (r: ToolInterfaceCache)
        ensures
            r@ == Seq::<(Seq<char>, (ToolV, Seq<char>))>::empty(),
            r.wf(),
    {
        let r = ToolInterfaceCache { entries: Vec::new() };
        assert(r@ =~= Seq::<(Seq<char>, (ToolV, Seq<char>))>::empty());
        r
    }

    fn position(&self, tool_name: &str) -> (r: Option<usize>)
        ensures
            match r {
                Some(i) => entry_index(self@, tool_name@) == i && i < self@.len(),
                None => entry_index(self@, tool_name@) == -1,
            },
    {
        let mut i: usize = 0;
        while i < self.entries.len()
            invariant
                i <= self.entries@.len(),
                self@.len() == self.entries@.len(),
                forall|j: int| 0 <= j < i ==> self@[j].0 != tool_name@,
            decreases self.entries@.len() - i,
        {
            assert(self@[i as int].0 == self.entries@[i as int].0@);
            if same_text(self.entries[i].0.as_str(), tool_name) {
                proof {
                    lemma_entry_index_first(self@, tool_name@, i as int);
                }
                return Some(i);
            }
            i = i + 1;
        }
        proof {
            lemma_entry_index_none(self@, tool_name@);
        }
        None
    }

    /// The descriptor and text stored for `tool_name`.
    pub fn get(&self, tool_name: &str) -> (r: Option<&(Tool, String)>)
        ensures
            match r {
                Some(e) => lookup(self@, tool_name@) == Some((e.0@, e.1@)),
                None => lookup(self@, tool_name@) is None,
            },
    {
        match self.position(tool_name) {
            Some(i) => Some(&self.entries[i].1),
            None => None,
        }
    }

    /// Stores `tool` and its `interface` for `tool_name`, replacing what was
    /// stored for it.
    pub fn insert(&mut self, tool_name: &str, tool: Tool, interface: String)
        ensures
            final(self)@ == store(old(self)@, tool_name@, (tool@, interface@)),
    {
        let ghost v = (tool@, interface@);
        let key = owned(tool_name);
        match self.position(tool_name) {
            Some(i) => {
                self.entries.set(i, (key, (tool, interface)));
            },
            None => {
                self.entries.push((key, (tool, interface)));
            },
        }
        assert(self@ =~= store(old(self)@, tool_name@, v));
    }
}

/// Produces interface text for tools and keeps what it produced, by tool name.
pub struct ToolInterfaceGenerator {
    cache: ToolInterfaceCache,
}

impl ToolInterfaceGenerator {
    /// The stored texts are those of their descriptors.
    pub closed spec fn wf(&self) -> bool {
        self.cache.wf()
    }

    /// A generator with nothing cached.
    pub fn new() -> (r: ToolInterfaceGenerator)
        ensures
            r.wf(),
    {
        ToolInterfaceGenerator { cache: ToolInterfaceCache::new() }
    }

    /// The interface text of `tool`. A text kept from an earlier call is reused
    /// only for the very same descriptor.
    pub fn tool_to_typescript_interface(&mut self, tool: &Tool) -> (r: String)
        requires
            old(self).wf(),
        ensures
            final(self).wf(),
            r@ == interface_text(tool@),
    {
        match self.cache.get(tool.name.as_str()) {
            Some(entry) => {
                if entry.0.same_as(tool) {
                    proof {
                        lemma_entry_index(self.cache@, tool.name@);
                        let i = entry_index(self.cache@, tool.name@);
                        assert(self.cache@[i].1.1 == interface_text(self.cache@[i].1.0));
                    }
                    return entry.1.clone();
                }
            },
            None => {},
        }
        let text = render_interface(tool);
        let ghost c = self.cache@;
        let ghost v = (tool@, text@);
        self.cache.insert(tool.name.as_str(), tool.copy(), text.clone());
        proof {
            lemma_entry_index(c, tool.name@);
            assert forall|i: int| 0 <= i < self.cache@.len() implies #[trigger] self.cache@[i].1.1
                == interface_text(self.cache@[i].1.0) by {
                if i < c.len() && i != entry_index(c, tool.name@) {
                    assert(self.cache@[i] == c[i]);
                }
            }
        }
        text
    }

    /// The path by which a script reaches `tool` (see `access_path`).
    pub fn tool_access_path(&self, tool: &Tool) -> (r: String)
        ensures
            r@ == access_path(tool.name@),
    {
        access_path_of(tool.name.as_str())
    }
}

impl Default for ToolInterfaceGenerator {
    fn default() -> (r: ToolInterfaceGenerator)
        ensures
            r.wf(),
    {
        ToolInterfaceGenerator::new()
    }
}

} // verus!

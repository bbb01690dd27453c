use codemode_rs::json::Json;
use codemode_rs::tool::Tool;
use codemode_rs::ts_interface::{
    escape_comment, install_path, json_schema_to_object_content, json_schema_to_typescript,
    json_schema_to_typescript_type, map_json_type_to_ts, render_interface, sanitize_identifier,
    ToolInterfaceGenerator,
};

fn s(x: &str) -> String {
    x.to_string()
}

fn jstr(x: &str) -> Json {
    Json::Str(s(x))
}

fn obj(members: Vec<(&str, Json)>) -> Json {
    Json::Object(members.into_iter().map(|(k, v)| (s(k), v)).collect())
}

fn pull_request_tool() -> Tool {
    Tool {
        name: s("github.get_pull_request"),
        description: s("Fetch a pull request"),
        tags: vec![s("github"), s("pulls")],
        inputs: obj(vec![
            ("type", jstr("object")),
            (
                "properties",
                obj(vec![
                    ("owner", obj(vec![("type", jstr("string")), ("description", jstr("Repository owner"))])),
                    ("repo", obj(vec![("type", jstr("string"))])),
                    ("pull_number", obj(vec![("type", jstr("integer"))])),
                    (
                        "state",
                        obj(vec![
                            ("type", jstr("string")),
                            ("enum", Json::Array(vec![jstr("open"), jstr("closed")])),
                        ]),
                    ),
                ]),
            ),
            ("required", Json::Array(vec![jstr("owner"), jstr("repo"), jstr("pull_number")])),
        ]),
        outputs: obj(vec![
            ("type", jstr("object")),
            ("properties", obj(vec![("title", obj(vec![("type", jstr("string"))]))])),
        ]),
        is_async: true,
    }
}

#[test]
fn generates_namespaced_interfaces_with_jsdoc() {
    let tool = pull_request_tool();

    let mut generator = ToolInterfaceGenerator::default();
    let output = generator.tool_to_typescript_interface(&tool);

    assert!(output.contains("namespace github"));
    assert!(output.contains("interface get_pull_requestInput"));
    assert!(output.contains("pull_number: number"));
    assert!(output.contains("state?: \"open\" | \"closed\""));
    assert!(output.contains("Promise<get_pull_requestOutputBase>"));
    assert!(output.contains("Access as: await github.get_pull_request(args)"));
}

#[test]
fn namespaced_interface_exact_text() {
    let tool = pull_request_tool();
    let expected = "namespace github {\n  interface get_pull_requestInput {\n    /** Repository owner */\n    owner: string;\n    repo: string;\n    pull_number: number;\n    state?: \"open\" | \"closed\";\n  }\n\n  type get_pull_requestOutput = Promise<get_pull_requestOutputBase>;\n\n  interface get_pull_requestOutputBase {\n    title?: string;\n  }\n}\n\n/**\n * Fetch a pull request\n * Tags: github, pulls\n * Access as: await github.get_pull_request(args)\n */";
    assert_eq!(render_interface(&tool), expected);
}

#[test]
fn generation_is_idempotent_and_cached_by_name() {
    let tool = pull_request_tool();
    let mut generator = ToolInterfaceGenerator::new();
    let first = generator.tool_to_typescript_interface(&tool);
    let second = generator.tool_to_typescript_interface(&tool);
    assert_eq!(first, second);
    let mut fresh = ToolInterfaceGenerator::new();
    assert_eq!(fresh.tool_to_typescript_interface(&tool), first);
    let mut changed = pull_request_tool();
    changed.description = s("Another text");
    let regenerated = generator.tool_to_typescript_interface(&changed);
    assert_eq!(regenerated, render_interface(&changed));
    assert_ne!(regenerated, first);
    assert!(regenerated.contains(" * Another text\n"));
    assert_eq!(generator.tool_to_typescript_interface(&tool), first);
}

#[test]
fn sanitises_identifiers() {
    assert_eq!(sanitize_identifier("1weird-name"), "_1weird_name");
    assert_eq!(sanitize_identifier(""), "_");
    assert_eq!(sanitize_identifier("ok_Name9"), "ok_Name9");
    assert_eq!(sanitize_identifier("a b.c"), "a_b_c");
}

#[test]
fn weird_name_access_path() {
    let generator = ToolInterfaceGenerator::new();
    let tool = Tool {
        name: s("1weird-name"),
        description: s(""),
        tags: vec![],
        inputs: Json::Null,
        outputs: Json::Null,
        is_async: false,
    };
    assert_eq!(generator.tool_access_path(&tool), "_1weird_name");
    let (namespaces, leaf) = install_path("1weird-name");
    assert!(namespaces.is_empty());
    assert_eq!(leaf, "_1weird_name");
}

#[test]
fn dotted_access_path_joins_the_rest() {
    let (namespaces, leaf) = install_path("my-ns.a.b-c");
    assert_eq!(namespaces, vec![s("my_ns")]);
    assert_eq!(leaf, "a_b_c");
    let (namespaces, leaf) = install_path("ns.");
    assert_eq!(namespaces, vec![s("ns")]);
    assert_eq!(leaf, "_");
}

#[test]
fn escapes_comments() {
    assert_eq!(escape_comment("a */ b\nc"), "a *\\/ b c");
    assert_eq!(escape_comment("**/"), "**\\/");
    assert_eq!(escape_comment(""), "");
}

#[test]
fn maps_schema_types() {
    assert_eq!(json_schema_to_typescript_type(&obj(vec![("type", jstr("integer"))])), "number");
    assert_eq!(json_schema_to_typescript_type(&obj(vec![("type", jstr("object"))])), "{ [key: string]: any }");
    assert_eq!(json_schema_to_typescript_type(&obj(vec![("type", jstr("array"))])), "any[]");
    assert_eq!(
        json_schema_to_typescript_type(&obj(vec![
            ("type", jstr("array")),
            ("items", Json::Array(vec![obj(vec![("type", jstr("string"))]), obj(vec![("type", jstr("boolean"))])])),
        ])),
        "(string | boolean)[]"
    );
    assert_eq!(json_schema_to_typescript_type(&obj(vec![])), "any");
    assert_eq!(json_schema_to_typescript_type(&obj(vec![("type", jstr("weird"))])), "any");
    assert_eq!(
        json_schema_to_typescript_type(&obj(vec![(
            "enum",
            Json::Array(vec![Json::Number(s("1")), Json::Bool(true), Json::Null, obj(vec![])]),
        )])),
        "1 | true | null"
    );
    assert_eq!(
        json_schema_to_typescript_type(&obj(vec![
            ("type", jstr("object")),
            (
                "properties",
                obj(vec![("a", obj(vec![("type", jstr("number"))])), ("b", obj(vec![]))]),
            ),
            ("required", Json::Array(vec![jstr("a")])),
        ])),
        "{ a: number; b?: any }"
    );
    assert_eq!(map_json_type_to_ts("array"), "any[]");
    assert_eq!(map_json_type_to_ts("nope"), "any");
}

#[test]
fn quotes_enum_strings_as_json() {
    let schema = obj(vec![("enum", Json::Array(vec![jstr("say \"hi\"")]))]);
    assert_eq!(json_schema_to_typescript_type(&schema), "\"say \\\"hi\\\"\"");
}

#[test]
fn quotes_control_characters_as_json() {
    let schema = obj(vec![("enum", Json::Array(vec![jstr("a\u{1}b\\c\td")]))]);
    assert_eq!(json_schema_to_typescript_type(&schema), "\"a\\u0001b\\\\c\\td\"");
}

#[test]
fn compares_descriptors() {
    let a = pull_request_tool();
    let mut b = pull_request_tool();
    assert!(a.same_as(&b));
    b.tags.push(s("more"));
    assert!(!a.same_as(&b));
    let mut c = pull_request_tool();
    c.outputs = Json::Null;
    assert!(!a.same_as(&c));
}

#[test]
fn declares_top_level_schemas() {
    assert_eq!(
        json_schema_to_typescript(&obj(vec![("type", jstr("object"))]), "X"),
        "interface X {\n  [key: string]: any;\n}"
    );
    assert_eq!(
        json_schema_to_typescript(
            &obj(vec![
                ("type", jstr("object")),
                ("properties", obj(vec![("n", obj(vec![("type", jstr("number")), ("description", jstr("a */ n"))]))])),
            ]),
            "X"
        ),
        "interface X {\n  /** a *\\/ n */\n  n?: number;\n}"
    );
    assert_eq!(json_schema_to_typescript(&obj(vec![("type", jstr("array"))]), "L"), "type L = any[];");
    assert_eq!(
        json_schema_to_typescript(&obj(vec![("type", jstr("array")), ("items", obj(vec![("type", jstr("string"))]))]), "L"),
        "type L = (string)[];"
    );
    assert_eq!(json_schema_to_typescript(&obj(vec![("type", jstr("null"))]), "N"), "type N = null;");
    assert_eq!(
        json_schema_to_typescript(&obj(vec![("type", Json::Array(vec![jstr("string"), jstr("integer")]))]), "U"),
        "type U = string | number;"
    );
    assert_eq!(json_schema_to_typescript(&Json::Null, "A"), "type A = any;");
    assert_eq!(
        json_schema_to_typescript(&obj(vec![("type", jstr("string")), ("enum", Json::Array(vec![jstr("x")]))]), "E"),
        "type E = \"x\";"
    );
}

#[test]
fn object_content_defaults_to_index_signature() {
    assert_eq!(json_schema_to_object_content(&Json::Null), "    [key: string]: any;");
    assert_eq!(
        json_schema_to_object_content(&obj(vec![("type", jstr("object")), ("properties", obj(vec![]))])),
        "    [key: string]: any;"
    );
}

#[test]
fn plain_async_tool_interface() {
    let tool = Tool {
        name: s("add"),
        description: s("Adds"),
        tags: vec![],
        inputs: obj(vec![("type", jstr("object"))]),
        outputs: obj(vec![("type", jstr("number"))]),
        is_async: true,
    };
    let expected = "interface addInput {\n  [key: string]: any;\n}\n\ntype addOutputBase = number;\n\ntype addOutput = Promise<addOutputBase>;\n\n/**\n * Adds\n * Tags: \n * Access as: await add(args)\n */";
    assert_eq!(render_interface(&tool), expected);
}

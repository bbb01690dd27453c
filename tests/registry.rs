use codemode_rs::install::{namespace_step, NamespaceStep};
use codemode_rs::client::{all_interfaces, apply_prefix, CallerKind, CallerTable};
use codemode_rs::json::Json;
use codemode_rs::tool::Tool;
use codemode_rs::ts_interface::{install_path, ToolInterfaceGenerator};

fn tool(name: &str, is_async: bool) -> Tool {
    Tool {
        name: name.to_string(),
        description: String::new(),
        tags: vec![],
        inputs: Json::Null,
        outputs: Json::Null,
        is_async,
    }
}

#[test]
fn registering_again_overwrites() {
    let mut table: CallerTable<u8, u16> = CallerTable::new();
    assert!(!table.register_async_tool(tool("x.fail", false), "fail".to_string(), 1));
    assert!(table.get_tool("x.fail").unwrap().is_async);
    assert!(table.register_sync_tool(tool("x.fail", true), "fail2".to_string(), 2));
    let entry = table.get("x.fail").unwrap();
    assert!(!entry.tool.is_async);
    assert_eq!(entry.raw_name, "fail2");
    assert!(matches!(entry.caller, CallerKind::Sync(2)));
    assert_eq!(table.get_tools().len(), 1);
    assert!(table.get_tool("missing").is_none());
}

#[test]
fn sources_register_under_prefix() {
    assert_eq!(apply_prefix("test", "echo"), "test.echo");
    let mut table: CallerTable<u8, u8> = CallerTable::new();
    table.register_sync_tool(tool("echo", false), "echo".to_string(), 9);
    table.register_async_source_tools("test", &vec![tool("echo", false), tool("other", false)], &7);
    let names: Vec<String> = table.get_tools().into_iter().map(|t| t.name).collect();
    assert_eq!(names, vec!["echo".to_string(), "test.echo".to_string(), "test.other".to_string()]);
    let entry = table.get("test.echo").unwrap();
    assert_eq!(entry.raw_name, "echo");
    assert!(entry.tool.is_async);
    assert!(matches!(entry.caller, CallerKind::Async(7)));
    assert!(matches!(table.get("echo").unwrap().caller, CallerKind::Sync(9)));
    table.register_sync_source_tools("s", &vec![tool("add", true)], &3);
    let entry = table.get("s.add").unwrap();
    assert!(!entry.tool.is_async);
    assert_eq!(entry.raw_name, "add");
    assert!(matches!(entry.caller, CallerKind::Sync(3)));
}

#[test]
fn weird_name_routes_by_raw_name() {
    let mut table: CallerTable<u8, u8> = CallerTable::new();
    table.register_sync_tool(tool("1weird-name", false), "1weird-name".to_string(), 0);
    let (_, leaf) = install_path("1weird-name");
    assert_eq!(leaf, "_1weird_name");
    assert_eq!(table.get("1weird-name").unwrap().raw_name, "1weird-name");
    let plan = table.stub_plan(&tool("1weird-name", false));
    assert!(plan.namespaces.is_empty());
    assert_eq!(plan.leaf, "_1weird_name");
    assert_eq!(plan.raw_name, "1weird-name");
    assert!(matches!(plan.caller, Some(CallerKind::Sync(0))));
}

#[test]
fn unregistered_stub_has_no_caller() {
    let table: CallerTable<u8, u8> = CallerTable::new();
    let plan = table.stub_plan(&tool("slow.op", true));
    assert_eq!(plan.namespaces, vec!["slow".to_string()]);
    assert_eq!(plan.leaf, "op");
    assert_eq!(plan.raw_name, "slow.op");
    assert!(plan.caller.is_none());
    assert!(plan.is_async);
}

#[test]
fn parallel_echo_calls_are_routed_separately() {
    let mut table: CallerTable<u8, u8> = CallerTable::new();
    table.register_async_source_tools("test", &vec![tool("echo", true)], &1);
    let plan = table.stub_plan(&table.get_tools()[0]);
    assert_eq!(plan.namespaces, vec!["test".to_string()]);
    assert_eq!(plan.leaf, "echo");
    assert_eq!(plan.raw_name, "echo");
    let mut bridge: codemode_rs::sandbox::BridgeState<&str> = codemode_rs::sandbox::BridgeState::new();
    let a = bridge.register("m1").unwrap();
    let b = bridge.register("m2").unwrap();
    assert_ne!(a, b);
    assert_eq!(bridge.take(a), Some("m1"));
    assert_eq!(bridge.take(b), Some("m2"));
}

#[test]
fn all_interfaces_under_one_header() {
    let mut generator = ToolInterfaceGenerator::new();
    let text = all_interfaces(&mut generator, &vec![tool("a", false), tool("b", true)]);
    assert!(text.starts_with("// Auto-generated TypeScript interfaces for UTCP tools\n"));
    assert!(text.contains("Access as: a(args)\n */\n\ntype bInput = any;"));
    assert!(text.ends_with("Access as: await b(args)\n */"));
    let empty = all_interfaces(&mut generator, &vec![]);
    assert_eq!(empty, "// Auto-generated TypeScript interfaces for UTCP tools\n");
}

#[test]
fn namespaces_are_created_reused_or_refused() {
    assert!(matches!(namespace_step(false, false), NamespaceStep::Create));
    assert!(matches!(namespace_step(true, true), NamespaceStep::Reuse));
    assert!(matches!(namespace_step(true, false), NamespaceStep::Fail));
}

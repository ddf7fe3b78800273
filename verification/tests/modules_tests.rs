use workflow_ux::attributes::StrMap;
use workflow_ux::modules::{
    collect_modules, module_name, parse_register_name, plan_loading, register_fn_name,
    required_module_suffix, LoadStep,
};

#[test]
fn module_names_are_snake_case() {
    assert_eq!(module_name("MyModule"), "my_module");
    assert_eq!(module_name("Accounts"), "accounts");
}

#[test]
fn register_function_names() {
    assert_eq!(register_fn_name("MyModule", None), "module_register_my_module_wasm");
    assert_eq!(
        register_fn_name("MyModule", Some("\"Accounts\"")),
        "module_register_my_module_wasm_accounts"
    );
    assert_eq!(required_module_suffix(Some("\"Wallet\"")), "_wallet");
    assert_eq!(required_module_suffix(None), "");
}

#[test]
fn register_names_parse_back() {
    let name = register_fn_name("MyModule", Some("\"Accounts\""));
    assert_eq!(
        parse_register_name(&name),
        Some(("my_module".to_string(), Some("accounts".to_string())))
    );
    assert_eq!(
        parse_register_name("module_register_wallet_wasm"),
        Some(("wallet".to_string(), None))
    );
}

#[test]
fn register_name_edge_cases() {
    assert_eq!(parse_register_name("other_fn"), None);
    assert_eq!(parse_register_name("module_register_x"), Some(("x".to_string(), None)));
    assert_eq!(
        parse_register_name("module_register_a_wasm_dep_one_wasm_rest"),
        Some(("a".to_string(), Some("depone".to_string())))
    );
}

#[test]
fn load_plan_orders_and_skips() {
    let exports = vec![
        "module_register_a_wasm".to_string(),
        "module_register_b_wasm_a".to_string(),
        "other".to_string(),
        "module_register_c_wasm".to_string(),
    ];
    let modules = collect_modules(&exports);
    assert_eq!(modules.len(), 3);
    let order = vec!["b".to_string(), "z".to_string()];
    let disabled = vec!["a".to_string()];
    let plan = plan_loading(modules, &order, &disabled);
    assert_eq!(plan.len(), 4);
    assert!(matches!(&plan[0], LoadStep::SkipDependent { name, dependency } if name == "b" && dependency == "a"));
    assert!(matches!(&plan[1], LoadStep::Missing { name } if name == "z"));
    assert!(matches!(&plan[2], LoadStep::SkipDisabled { name } if name == "a"));
    assert!(matches!(&plan[3], LoadStep::Load { name, export } if name == "c" && *export == 3));
}

#[test]
fn later_register_function_counts() {
    let exports = vec![
        "module_register_a_wasm".to_string(),
        "module_register_a_wasm_b".to_string(),
    ];
    let modules = collect_modules(&exports);
    let f = modules.get("a").unwrap();
    assert_eq!(f.export, 1);
    assert_eq!(f.depends_on, Some("b".to_string()));
    let empty: StrMap<workflow_ux::modules::ModuleFn> = StrMap::new();
    assert!(plan_loading(empty, &vec![], &vec![]).is_empty());
}

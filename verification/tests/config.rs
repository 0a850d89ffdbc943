use arch_demo::config::{get_network, get_rpc_url, DEFAULT_NETWORK, NODE1_ADDRESS};
use arch_demo::layout::{
    demo_manifest, Tree, DEMO_DIR, ENV_EXAMPLE_FILE, ENV_FILE, MANIFEST_FILE, PROJECTS_DIR,
    SHARED_MARKER_DIR,
};

#[test]
fn the_command_line_comes_first() {
    assert_eq!(
        get_rpc_url(Some("http://arg:1".to_string()), Some("http://leader:2".to_string())),
        "http://arg:1"
    );
    assert_eq!(get_rpc_url(Some("http://arg:1".to_string()), None), "http://arg:1");
}

#[test]
fn the_configured_leader_comes_second() {
    assert_eq!(get_rpc_url(None, Some("http://leader:2".to_string())), "http://leader:2");
}

#[test]
fn the_default_address_comes_last() {
    assert_eq!(get_rpc_url(None, None), NODE1_ADDRESS);
    assert_eq!(get_rpc_url(None, None), "http://localhost:9002/");
}

#[test]
fn an_empty_argument_is_still_an_argument() {
    assert_eq!(get_rpc_url(Some(String::new()), Some("http://leader:2".to_string())), "");
}

#[test]
fn the_network_defaults_to_regtest() {
    assert_eq!(get_network(None), "regtest");
    assert_eq!(get_network(None), DEFAULT_NETWORK);
    assert_eq!(get_network(Some("testnet".to_string())), "testnet");
}

#[test]
fn the_manifest_names_the_three_shared_libraries() {
    assert_eq!(
        demo_manifest(),
        "[package]\nname = \"arch-demo-app\"\nversion = \"0.1.0\"\nedition = \"2021\"\n\n[dependencies]\ncommon = { path = \"../../common\" }\nprogram = { path = \"../../program\" }\nbip322 = { path = \"../../bip322\" }\n"
    );
}

#[test]
fn trees_have_their_names() {
    assert_eq!(Tree::Common.name(), "common");
    assert_eq!(Tree::Program.name(), "program");
    assert_eq!(Tree::Bip322.name(), "bip322");
    assert_eq!(Tree::App.name(), "app");
    assert!(Tree::Common.is_shared());
    assert!(Tree::Program.is_shared());
    assert!(Tree::Bip322.is_shared());
    assert!(!Tree::App.is_shared());
}

#[test]
fn places_lie_where_the_setup_expects_them() {
    assert_eq!(SHARED_MARKER_DIR, Tree::Common.name());
    assert_eq!(PROJECTS_DIR, "projects");
    assert_eq!(DEMO_DIR, "projects/demo");
    assert_eq!(MANIFEST_FILE, "Cargo.toml");
    assert_eq!(ENV_EXAMPLE_FILE, "app/frontend/.env.example");
    assert_eq!(ENV_FILE, "app/frontend/.env");
}

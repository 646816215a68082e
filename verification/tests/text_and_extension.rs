use agent_configuration::extension::{
    context_server_uninstall_plan, extension_only_provides_context_server, manifest_provides_server,
    resolve_extension_for_context_server, server_name_from_extension, uninstall_warning_message,
    ContextServerUninstall, ExtensionManifest, InstalledExtension,
};
use agent_configuration::text::{decimal_string, ends_with, strip_suffix};

fn manifest(name: &str, servers: &[&str]) -> ExtensionManifest {
    ExtensionManifest {
        name: name.to_string(),
        context_servers: servers.iter().map(|s| s.to_string()).collect(),
        themes: 0,
        icon_themes: 0,
        languages: 0,
        grammars: 0,
        language_servers: 0,
        slash_commands: 0,
        has_snippets: false,
        debug_locators: 0,
    }
}

fn installed(id: &str, m: ExtensionManifest) -> InstalledExtension {
    InstalledExtension { id: id.to_string(), manifest: m }
}

#[test]
fn strip_suffix_removes_a_trailing_suffix() {
    assert_eq!(strip_suffix("Foo MCP", " MCP"), Some("Foo".to_string()));
    assert_eq!(strip_suffix("Foo", " MCP"), None);
    assert_eq!(strip_suffix("MCP", " MCP"), None);
    assert_eq!(strip_suffix(" MCP", " MCP"), Some(String::new()));
    assert_eq!(strip_suffix("Grüße MCP", " MCP"), Some("Grüße".to_string()));
}

#[test]
fn ends_with_compares_the_tail() {
    assert!(ends_with("abc", "bc"));
    assert!(ends_with("abc", ""));
    assert!(!ends_with("abc", "ab"));
    assert!(!ends_with("bc", "abc"));
}

#[test]
fn server_name_strips_known_suffixes_in_order() {
    assert_eq!(server_name_from_extension("GitHub MCP Server"), "GitHub");
    assert_eq!(server_name_from_extension("Postgres MCP"), "Postgres");
    assert_eq!(server_name_from_extension("Docs Context Server"), "Docs");
    assert_eq!(server_name_from_extension("Plain Name"), "Plain Name");
    // only one suffix goes: " MCP Server" is tried first
    assert_eq!(server_name_from_extension("X MCP MCP Server"), "X MCP");
    assert_eq!(server_name_from_extension("MCP Server"), "MCP Server");
}

#[test]
fn only_context_server_extension_is_recognised() {
    let m = manifest("A", &["a"]);
    assert!(extension_only_provides_context_server(&m));
    let mut two = manifest("A", &["a", "b"]);
    assert!(!extension_only_provides_context_server(&two));
    two.context_servers.pop();
    two.themes = 1;
    assert!(!extension_only_provides_context_server(&two));
    let mut snippets = manifest("A", &["a"]);
    snippets.has_snippets = true;
    assert!(!extension_only_provides_context_server(&snippets));
    let mut locators = manifest("A", &["a"]);
    locators.debug_locators = 2;
    assert!(!extension_only_provides_context_server(&locators));
    let none = manifest("A", &[]);
    assert!(!extension_only_provides_context_server(&none));
}

#[test]
fn manifest_lists_its_servers() {
    let m = manifest("A", &["a", "b"]);
    assert!(manifest_provides_server(&m, &"b".to_string()));
    assert!(!manifest_provides_server(&m, &"c".to_string()));
}

#[test]
fn resolve_finds_the_first_provider() {
    let list = vec![
        installed("one", manifest("One", &["x"])),
        installed("two", manifest("Two", &["y", "z"])),
        installed("three", manifest("Three", &["z"])),
    ];
    assert_eq!(resolve_extension_for_context_server(&"z".to_string(), &list), Some(1));
    assert_eq!(resolve_extension_for_context_server(&"x".to_string(), &list), Some(0));
    assert_eq!(resolve_extension_for_context_server(&"w".to_string(), &list), None);
    assert_eq!(resolve_extension_for_context_server(&"x".to_string(), &Vec::new()), None);
}

#[test]
fn uninstall_plan_depends_on_what_the_extension_provides() {
    let mut rich = manifest("Rich", &["r"]);
    rich.languages = 3;
    let list = vec![installed("solo-ext", manifest("Solo", &["s"])), installed("rich-ext", rich)];
    match context_server_uninstall_plan(&"s".to_string(), true, &list) {
        ContextServerUninstall::UninstallExtension(id) => assert_eq!(id, "solo-ext"),
        other => panic!("unexpected plan {:?}", other),
    }
    assert!(matches!(
        context_server_uninstall_plan(&"r".to_string(), true, &list),
        ContextServerUninstall::WarnExtensionProvidesMore
    ));
    assert!(matches!(
        context_server_uninstall_plan(&"s".to_string(), false, &list),
        ContextServerUninstall::KeepExtensions
    ));
    assert!(matches!(
        context_server_uninstall_plan(&"missing".to_string(), true, &list),
        ContextServerUninstall::KeepExtensions
    ));
}

#[test]
fn uninstall_warning_names_the_server() {
    assert_eq!(
        uninstall_warning_message(&"postgres".to_string()),
        "The postgres extension provides more than just the MCP server. Proceed to uninstall anyway?"
    );
}

#[test]
fn decimal_strings() {
    assert_eq!(decimal_string(0), "0");
    assert_eq!(decimal_string(7), "7");
    assert_eq!(decimal_string(10), "10");
    assert_eq!(decimal_string(9051), "9051");
    assert_eq!(decimal_string(usize::MAX), usize::MAX.to_string());
}

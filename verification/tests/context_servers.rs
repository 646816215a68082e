use agent_configuration::configuration::{AgentConfiguration, ContextServersSection};
use agent_configuration::context_server::{
    configuration_menu, context_server_display_name, context_server_row, context_server_switch_toggled,
    is_provided_by_extension, is_remote, item_status, server_details, should_show_logout_button, tool_label,
    ContextServerConfiguration, ContextServerEntry, ContextServerStatus, ItemSource, ItemStatus, MenuEntry,
    ServerCommand, ServerDetails, ToggleState,
};
use agent_configuration::extension::{ExtensionManifest, InstalledExtension};
use agent_configuration::section::SectionItem;
use agent_configuration::settings::{ContextServerSettingsContent, Settings};
use agent_configuration::settings_map::SettingsMap;

fn extension(id: &str, name: &str, servers: &[&str]) -> InstalledExtension {
    InstalledExtension {
        id: id.to_string(),
        manifest: ExtensionManifest {
            name: name.to_string(),
            context_servers: servers.iter().map(|s| s.to_string()).collect(),
            themes: 0,
            icon_themes: 0,
            languages: 0,
            grammars: 0,
            language_servers: 0,
            slash_commands: 0,
            has_snippets: false,
            debug_locators: 0,
        },
    }
}

fn entry(
    id: &str,
    status: Option<ContextServerStatus>,
    configuration: Option<ContextServerConfiguration>,
    tool_count: usize,
) -> ContextServerEntry {
    ContextServerEntry { id: id.to_string(), status, configuration, tool_count }
}

fn empty_settings() -> Settings {
    Settings { context_servers: SettingsMap::new(), agent_servers: None }
}

#[test]
fn tool_label_counts_tools_of_running_servers() {
    assert_eq!(tool_label(true, 1), Some("1 tool".to_string()));
    assert_eq!(tool_label(true, 0), Some("0 tools".to_string()));
    assert_eq!(tool_label(true, 12), Some("12 tools".to_string()));
    assert_eq!(tool_label(true, 1000), Some("1000 tools".to_string()));
    assert_eq!(tool_label(false, 4), None);
}

#[test]
fn configuration_kinds() {
    assert!(is_provided_by_extension(&None));
    assert!(is_provided_by_extension(&Some(ContextServerConfiguration::Extension)));
    assert!(!is_provided_by_extension(&Some(ContextServerConfiguration::Custom)));
    let http = Some(ContextServerConfiguration::Http { has_static_auth_header: false });
    let http_static = Some(ContextServerConfiguration::Http { has_static_auth_header: true });
    assert!(!is_provided_by_extension(&http));
    assert!(is_remote(&http));
    assert!(is_remote(&http_static));
    assert!(!is_remote(&None));
    assert!(should_show_logout_button(&http));
    assert!(!should_show_logout_button(&http_static));
    assert!(!should_show_logout_button(&Some(ContextServerConfiguration::Custom)));
}

#[test]
fn status_badges() {
    assert_eq!(item_status(&None), ItemStatus::Stopped);
    assert_eq!(item_status(&Some(ContextServerStatus::Starting)), ItemStatus::Starting);
    assert_eq!(item_status(&Some(ContextServerStatus::Running)), ItemStatus::Running);
    assert_eq!(item_status(&Some(ContextServerStatus::Error("x".to_string()))), ItemStatus::Error);
    assert_eq!(item_status(&Some(ContextServerStatus::Stopped)), ItemStatus::Stopped);
    assert_eq!(item_status(&Some(ContextServerStatus::AuthRequired)), ItemStatus::AuthRequired);
    assert_eq!(item_status(&Some(ContextServerStatus::Authenticating)), ItemStatus::Authenticating);
}

#[test]
fn details_lines() {
    match server_details(&Some(ContextServerStatus::Error("boom".to_string())), true) {
        Some(ServerDetails::Error { message, show_logout }) => {
            assert_eq!(message, "boom");
            assert!(show_logout);
        }
        other => panic!("unexpected {:?}", other),
    }
    assert!(matches!(server_details(&Some(ContextServerStatus::AuthRequired), false), Some(ServerDetails::AuthRequired)));
    assert!(matches!(
        server_details(&Some(ContextServerStatus::Authenticating), false),
        Some(ServerDetails::Authenticating)
    ));
    assert!(server_details(&Some(ContextServerStatus::Running), true).is_none());
    assert!(server_details(&None, true).is_none());
}

#[test]
fn menu_entries() {
    assert_eq!(
        configuration_menu(0, false),
        vec![MenuEntry::ConfigureServer, MenuEntry::Separator, MenuEntry::Uninstall]
    );
    assert_eq!(
        configuration_menu(3, true),
        vec![
            MenuEntry::ConfigureServer,
            MenuEntry::ViewTools,
            MenuEntry::LogOut,
            MenuEntry::Separator,
            MenuEntry::Uninstall
        ]
    );
    assert_eq!(
        configuration_menu(0, true),
        vec![MenuEntry::ConfigureServer, MenuEntry::LogOut, MenuEntry::Separator, MenuEntry::Uninstall]
    );
}

#[test]
fn display_name_comes_from_the_providing_extension() {
    let list = vec![extension("gh", "GitHub MCP Server", &["github"])];
    assert_eq!(context_server_display_name(&"github".to_string(), &None, &list), "GitHub");
    assert_eq!(
        context_server_display_name(&"github".to_string(), &Some(ContextServerConfiguration::Extension), &list),
        "GitHub"
    );
    assert_eq!(
        context_server_display_name(&"github".to_string(), &Some(ContextServerConfiguration::Custom), &list),
        "github"
    );
    assert_eq!(context_server_display_name(&"other".to_string(), &None, &list), "other");
}

#[test]
fn row_of_a_running_remote_server() {
    let e = entry(
        "remote",
        Some(ContextServerStatus::Running),
        Some(ContextServerConfiguration::Http { has_static_auth_header: false }),
        2,
    );
    let row = context_server_row(&e, &Vec::new());
    assert_eq!(row.item_id, "remote");
    assert_eq!(row.display_name, "remote");
    assert_eq!(row.status, ItemStatus::Running);
    assert_eq!(row.source, ItemSource::Custom);
    assert!(row.switch_on);
    assert!(row.is_remote);
    assert!(row.show_logout);
    assert_eq!(row.tool_label, Some("2 tools".to_string()));
    assert!(row.details.is_none());
    assert_eq!(
        row.menu,
        vec![
            MenuEntry::ConfigureServer,
            MenuEntry::ViewTools,
            MenuEntry::LogOut,
            MenuEntry::Separator,
            MenuEntry::Uninstall
        ]
    );
}

#[test]
fn row_of_a_server_without_status_or_configuration() {
    let list = vec![extension("ctx", "Context7 MCP", &["context7"])];
    let row = context_server_row(&entry("context7", None, None, 0), &list);
    assert_eq!(row.display_name, "Context7");
    assert_eq!(row.status, ItemStatus::Stopped);
    assert_eq!(row.source, ItemSource::Extension);
    assert!(!row.switch_on);
    assert!(!row.is_remote);
    assert!(!row.show_logout);
    assert_eq!(row.tool_label, None);
    assert!(row.details.is_none());
    assert_eq!(row.menu, vec![MenuEntry::ConfigureServer, MenuEntry::Separator, MenuEntry::Uninstall]);
}

#[test]
fn switch_on_starts_a_known_server_and_enables_it() {
    let mut settings = empty_settings();
    let id = "srv".to_string();
    assert_eq!(context_server_switch_toggled(&mut settings, &id, ToggleState::Selected, true), ServerCommand::Start);
    assert_eq!(
        settings.context_servers.get(&id),
        Some(ContextServerSettingsContent::Extension { enabled: true, remote: false })
    );
    assert_eq!(context_server_switch_toggled(&mut settings, &id, ToggleState::Selected, false), ServerCommand::Nothing);
    assert_eq!(settings.context_servers.len(), 1);
}

#[test]
fn switch_off_stops_and_keeps_the_kind() {
    let mut settings = empty_settings();
    let id = "srv".to_string();
    settings.context_servers.insert(id.clone(), ContextServerSettingsContent::Http { enabled: true });
    settings.context_servers.insert("other".to_string(), ContextServerSettingsContent::Custom { enabled: true });
    assert_eq!(context_server_switch_toggled(&mut settings, &id, ToggleState::Unselected, true), ServerCommand::Stop);
    assert_eq!(settings.context_servers.get(&id), Some(ContextServerSettingsContent::Http { enabled: false }));
    assert_eq!(
        settings.context_servers.get(&"other".to_string()),
        Some(ContextServerSettingsContent::Custom { enabled: true })
    );
    assert_eq!(context_server_switch_toggled(&mut settings, &id, ToggleState::Indeterminate, true), ServerCommand::Stop);
    assert_eq!(settings.context_servers.get(&id), Some(ContextServerSettingsContent::Http { enabled: false }));
}

#[test]
fn switch_last_state_wins() {
    let mut settings = empty_settings();
    let id = "srv".to_string();
    context_server_switch_toggled(&mut settings, &id, ToggleState::Selected, true);
    context_server_switch_toggled(&mut settings, &id, ToggleState::Unselected, true);
    assert_eq!(
        settings.context_servers.get(&id),
        Some(ContextServerSettingsContent::Extension { enabled: false, remote: false })
    );
}

#[test]
fn removing_a_context_server_keeps_the_others() {
    let mut settings = empty_settings();
    settings.context_servers.insert("a".to_string(), ContextServerSettingsContent::Custom { enabled: true });
    settings.context_servers.insert("b".to_string(), ContextServerSettingsContent::Custom { enabled: false });
    settings.remove_context_server(&"a".to_string());
    assert_eq!(settings.context_servers.get(&"a".to_string()), None);
    assert_eq!(
        settings.context_servers.get(&"b".to_string()),
        Some(ContextServerSettingsContent::Custom { enabled: false })
    );
    settings.remove_context_server(&"missing".to_string());
    assert_eq!(settings.context_servers.len(), 1);
}

#[test]
fn empty_context_server_section() {
    let panel = AgentConfiguration::new(Vec::new(), Vec::new(), Vec::new());
    assert!(matches!(panel.context_servers_section(), ContextServersSection::Empty));
}

#[test]
fn context_server_section_puts_dividers_between_rows() {
    let panel = AgentConfiguration::new(
        vec![
            entry("b", Some(ContextServerStatus::Running), Some(ContextServerConfiguration::Custom), 1),
            entry("a", Some(ContextServerStatus::AuthRequired), Some(ContextServerConfiguration::Custom), 0),
            entry("c", None, Some(ContextServerConfiguration::Custom), 0),
        ],
        Vec::new(),
        Vec::new(),
    );
    match panel.context_servers_section() {
        ContextServersSection::Servers(items) => {
            assert_eq!(items.len(), 5);
            let ids: Vec<String> = items
                .iter()
                .filter_map(|i| match i {
                    SectionItem::Row(r) => Some(r.item_id.clone()),
                    SectionItem::Divider => None,
                })
                .collect();
            assert_eq!(ids, vec!["b", "a", "c"]);
            assert!(matches!(items[1], SectionItem::Divider));
            assert!(matches!(items[3], SectionItem::Divider));
            match &items[0] {
                SectionItem::Row(r) => assert_eq!(r.tool_label, Some("1 tool".to_string())),
                SectionItem::Divider => panic!("expected a row"),
            }
            match &items[2] {
                SectionItem::Row(r) => assert!(matches!(r.details, Some(ServerDetails::AuthRequired))),
                SectionItem::Divider => panic!("expected a row"),
            }
        }
        ContextServersSection::Empty => panic!("expected rows"),
    }
}

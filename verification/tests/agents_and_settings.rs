use agent_configuration::agent_server::{
    agent_row, agent_rows, agent_status, remove_agent_from_settings, restart_button, sorted_agent_order,
    uninstall_button, AgentConnectionStatus, AgentIcon, AgentRemoval, AgentServerEntry, ExternalAgentSource,
};
use agent_configuration::configuration::AgentConfiguration;
use agent_configuration::context_server::{ItemSource, ItemStatus};
use agent_configuration::section::{section_children, SectionItem};
use agent_configuration::settings::{AgentServerSettings, Settings};
use agent_configuration::settings_map::SettingsMap;

fn agent(name: &str, display: Option<&str>, source: Option<ExternalAgentSource>) -> AgentServerEntry {
    AgentServerEntry {
        name: name.to_string(),
        icon_path: None,
        display_name: display.map(|d| d.to_string()),
        source,
        connection: AgentConnectionStatus::Disconnected,
    }
}

#[test]
fn default_agent_source_is_custom() {
    assert_eq!(ExternalAgentSource::default(), ExternalAgentSource::Custom);
}

#[test]
fn agent_status_badges() {
    assert_eq!(agent_status(AgentConnectionStatus::Disconnected), ItemStatus::Stopped);
    assert_eq!(agent_status(AgentConnectionStatus::Connecting), ItemStatus::Starting);
    assert_eq!(agent_status(AgentConnectionStatus::Connected), ItemStatus::Running);
}

#[test]
fn restart_button_while_connected_or_connecting() {
    let id = "helper".to_string();
    assert!(restart_button(&id, AgentConnectionStatus::Disconnected).is_none());
    let connecting = restart_button(&id, AgentConnectionStatus::Connecting).unwrap();
    assert_eq!(connecting.element_id, "restart-helper");
    assert!(connecting.disabled);
    let connected = restart_button(&id, AgentConnectionStatus::Connected).unwrap();
    assert!(!connected.disabled);
}

#[test]
fn uninstall_buttons_by_source() {
    let id = "gemini".to_string();
    let ext = uninstall_button(&id, ExternalAgentSource::Extension);
    assert_eq!(ext.element_id, "uninstall-gemini");
    assert_eq!(ext.tooltip, "Uninstall Agent Extension");
    assert_eq!(ext.removal, AgentRemoval::UninstallExtension);
    let reg = uninstall_button(&id, ExternalAgentSource::Registry);
    assert_eq!(reg.tooltip, "Remove Registry Agent");
    assert_eq!(reg.removal, AgentRemoval::RemoveRegistryAgent);
    let custom = uninstall_button(&id, ExternalAgentSource::Custom);
    assert_eq!(custom.tooltip, "Remove Custom Agent");
    assert_eq!(custom.removal, AgentRemoval::RemoveCustomAgent);
}

#[test]
fn agent_row_defaults() {
    let row = agent_row(&agent("my-agent", None, None));
    assert_eq!(row.id, "my-agent");
    assert_eq!(row.display_name, "my-agent");
    assert!(matches!(row.icon, AgentIcon::Sparkle));
    assert_eq!(row.source, ItemSource::Custom);
    assert_eq!(row.status, ItemStatus::Stopped);
    assert!(row.restart.is_none());
    assert_eq!(row.uninstall.removal, AgentRemoval::RemoveCustomAgent);

    let mut e = agent("x", Some("Shown"), Some(ExternalAgentSource::Registry));
    e.icon_path = Some("icons/x.svg".to_string());
    e.connection = AgentConnectionStatus::Connected;
    let row = agent_row(&e);
    assert_eq!(row.display_name, "Shown");
    match &row.icon {
        AgentIcon::Path(p) => assert_eq!(p, "icons/x.svg"),
        AgentIcon::Sparkle => panic!("expected the agent's icon"),
    }
    assert_eq!(row.source, ItemSource::Registry);
    assert_eq!(row.status, ItemStatus::Running);
    assert_eq!(row.restart.as_ref().map(|b| b.element_id.clone()), Some("restart-x".to_string()));
}

#[test]
fn agents_are_ordered_by_lower_cased_name() {
    let agents = vec![
        agent("z", Some("beta"), None),
        agent("y", Some("Alpha"), None),
        agent("x", Some("GAMMA"), None),
        agent("w", None, None),
        agent("v", Some("alpha2"), None),
    ];
    let order = sorted_agent_order(&agents);
    assert_eq!(order, vec![1, 4, 0, 2, 3]);
    let rows = agent_rows(&agents);
    let names: Vec<String> = rows.iter().map(|r| r.display_name.clone()).collect();
    assert_eq!(names, vec!["Alpha", "alpha2", "beta", "GAMMA", "w"]);
    let ids: Vec<String> = rows.iter().map(|r| r.id.clone()).collect();
    assert_eq!(ids, vec!["y", "v", "z", "x", "w"]);
}

#[test]
fn no_agents_no_rows() {
    assert!(agent_rows(&Vec::new()).is_empty());
    let panel = AgentConfiguration::new(Vec::new(), Vec::new(), Vec::new());
    assert!(panel.agent_servers_section().is_empty());
}

#[test]
fn agent_section_has_dividers() {
    let panel = AgentConfiguration::new(
        Vec::new(),
        Vec::new(),
        vec![agent("b", None, None), agent("a", None, None)],
    );
    let items = panel.agent_servers_section();
    assert_eq!(items.len(), 3);
    match (&items[0], &items[1], &items[2]) {
        (SectionItem::Row(first), SectionItem::Divider, SectionItem::Row(second)) => {
            assert_eq!(first.id, "a");
            assert_eq!(second.id, "b");
        }
        _ => panic!("expected row, divider, row"),
    }
}

#[test]
fn section_children_intersperse() {
    let items = section_children(vec![1, 2, 3]);
    assert_eq!(items.len(), 5);
    assert!(matches!(items[0], SectionItem::Row(1)));
    assert!(matches!(items[1], SectionItem::Divider));
    assert!(matches!(items[2], SectionItem::Row(2)));
    assert!(matches!(items[3], SectionItem::Divider));
    assert!(matches!(items[4], SectionItem::Row(3)));
    assert_eq!(section_children(vec![7]).len(), 1);
    assert!(section_children(Vec::<u8>::new()).is_empty());
}

#[test]
fn agent_removal_from_settings_checks_the_kind() {
    let mut table = SettingsMap::new();
    table.insert("reg".to_string(), AgentServerSettings::Registry);
    table.insert("mine".to_string(), AgentServerSettings::Custom);
    let mut settings = Settings { context_servers: SettingsMap::new(), agent_servers: Some(table) };

    // a custom removal does not remove a registry entry
    assert!(remove_agent_from_settings(&mut settings, &"reg".to_string(), AgentRemoval::RemoveCustomAgent));
    assert_eq!(settings.agent_servers.as_ref().unwrap().len(), 2);

    assert!(remove_agent_from_settings(&mut settings, &"reg".to_string(), AgentRemoval::RemoveRegistryAgent));
    assert_eq!(settings.agent_servers.as_ref().unwrap().get(&"reg".to_string()), None);
    assert_eq!(
        settings.agent_servers.as_ref().unwrap().get(&"mine".to_string()),
        Some(AgentServerSettings::Custom)
    );

    assert!(!remove_agent_from_settings(&mut settings, &"mine".to_string(), AgentRemoval::UninstallExtension));
    assert_eq!(settings.agent_servers.as_ref().unwrap().len(), 1);

    assert!(remove_agent_from_settings(&mut settings, &"mine".to_string(), AgentRemoval::RemoveCustomAgent));
    assert_eq!(settings.agent_servers.as_ref().unwrap().len(), 0);
}

#[test]
fn agent_removal_without_a_table() {
    let mut settings = Settings { context_servers: SettingsMap::new(), agent_servers: None };
    assert!(remove_agent_from_settings(&mut settings, &"x".to_string(), AgentRemoval::RemoveCustomAgent));
    assert!(settings.agent_servers.is_none());
}

#[test]
fn settings_map_basics() {
    let mut m: SettingsMap<u8> = SettingsMap::new();
    assert_eq!(m.len(), 0);
    m.insert("a".to_string(), 1);
    m.insert("b".to_string(), 2);
    m.insert("a".to_string(), 3);
    assert_eq!(m.len(), 2);
    assert_eq!(m.get(&"a".to_string()), Some(3));
    assert!(m.replace(&"b".to_string(), 4));
    assert!(!m.replace(&"c".to_string(), 5));
    assert_eq!(m.get(&"b".to_string()), Some(4));
    assert_eq!(m.get(&"c".to_string()), None);
    m.remove(&"a".to_string());
    assert_eq!(m.get(&"a".to_string()), None);
    assert_eq!(m.len(), 1);
}

#[test]
fn agents_with_equal_names_keep_their_positions() {
    let agents = vec![
        agent("third", Some("Same"), None),
        agent("first", Some("same"), None),
        agent("second", Some("SAME"), None),
        agent("zero", Some("a"), None),
    ];
    assert_eq!(sorted_agent_order(&agents), vec![3, 0, 1, 2]);
    let ids: Vec<String> = agent_rows(&agents).iter().map(|r| r.id.clone()).collect();
    assert_eq!(ids, vec!["zero", "third", "first", "second"]);
}

#[test]
fn two_renders_list_agents_alike() {
    let agents = vec![
        agent("b", Some("Beta"), Some(ExternalAgentSource::Registry)),
        agent("a", Some("beta"), Some(ExternalAgentSource::Extension)),
        agent("c", Some("alpha"), None),
    ];
    let panel = AgentConfiguration::new(Vec::new(), Vec::new(), agents);
    let ids = |items: Vec<SectionItem<agent_configuration::agent_server::AgentRow>>| -> Vec<String> {
        items
            .into_iter()
            .map(|i| match i {
                SectionItem::Row(r) => r.id,
                SectionItem::Divider => "-".to_string(),
            })
            .collect()
    };
    let first = ids(panel.agent_servers_section());
    let second = ids(panel.agent_servers_section());
    assert_eq!(first, vec!["c", "-", "b", "-", "a"]);
    assert_eq!(first, second);
}

//! The parts of the user's settings that the configuration panel edits: the
//! context-server table and the agent-server table.

use vstd::prelude::*;

use crate::settings_map::SettingsMap;

verus! {

/// The settings stored for one context server; the panel reads and writes only
/// whether it is enabled, and creates extension entries that are not remote.
#[derive(Clone, Copy, Debug, PartialEq, Eq, Structural)]
pub enum ContextServerSettingsContent {
    /// A server started from a command that the user configured.
    Custom { enabled: bool },
    /// A server provided by an extension.
    Extension { enabled: bool, remote: bool },
    /// A server reached over HTTP.
    Http { enabled: bool },
}

impl ContextServerSettingsContent {
    /// The same settings with `enabled` set.
    pub open spec fn with_enabled(self, enabled: bool) -> Self {
        match self {
            ContextServerSettingsContent::Custom { .. } => ContextServerSettingsContent::Custom { enabled },
            ContextServerSettingsContent::Extension { remote, .. } => ContextServerSettingsContent::Extension {
                enabled,
                remote,
            },
            ContextServerSettingsContent::Http { .. } => ContextServerSettingsContent::Http { enabled },
        }
    }

    /// Whether the server is enabled.
    pub open spec fn is_enabled(self) -> bool {
        match self {
            ContextServerSettingsContent::Custom { enabled } => enabled,
            ContextServerSettingsContent::Extension { enabled, .. } => enabled,
            ContextServerSettingsContent::Http { enabled } => enabled,
        }
    }

    /// Sets whether the server is enabled, keeping the rest.
    pub fn set_enabled(&mut self, enabled: bool)
        ensures
            *final(self) == old(self).with_enabled(enabled),
            (*old(self) is Custom) ==> *final(self) == (ContextServerSettingsContent::Custom { enabled }),
            (*old(self) is Http) ==> *final(self) == (ContextServerSettingsContent::Http { enabled }),
            (*old(self) is Extension) ==> *final(self) == (ContextServerSettingsContent::Extension {
                enabled,
                remote: (*old(self))->remote,
            }),
    {
        match self {
            ContextServerSettingsContent::Custom { enabled: e } => {
                *e = enabled;
            },
            ContextServerSettingsContent::Extension { enabled: e, .. } => {
                *e = enabled;
            },
            ContextServerSettingsContent::Http { enabled: e } => {
                *e = enabled;
            },
        }
    }
}

/// The entry that a switch creates for a server that has none yet.
pub open spec fn default_context_server_settings(enabled: bool) -> ContextServerSettingsContent {
    ContextServerSettingsContent::Extension { enabled, remote: false }
}

/// How an external agent server was added to the settings.
#[derive(Clone, Copy, Debug, PartialEq, Eq, Structural)]
pub enum AgentServerSettings {
    /// Configured by hand.
    Custom,
    /// Provided by an extension.
    Extension,
    /// Installed from the agent registry.
    Registry,
}

/// The settings tables that the panel edits.
pub struct Settings {
    /// Context servers by id.
    pub context_servers: SettingsMap<ContextServerSettingsContent>,
    /// Agent servers by name, when the settings have that table at all.
    pub agent_servers: Option<SettingsMap<AgentServerSettings>>,
}

/// What the context-server table becomes when a server's switch is set.
pub open spec fn context_servers_after_switch(
    table: Map<Seq<char>, ContextServerSettingsContent>,
    id: Seq<char>,
    enabled: bool,
) -> Map<Seq<char>, ContextServerSettingsContent> {
    let current = if table.contains_key(id) {
        table[id]
    } else {
        default_context_server_settings(enabled)
    };
    table.insert(id, current.with_enabled(enabled))
}

/// What the agent-server table becomes when the entry `name` is removed, provided
/// that it was added in the way `kind` says.
pub open spec fn agent_servers_after_removal(
    table: Map<Seq<char>, AgentServerSettings>,
    name: Seq<char>,
    kind: AgentServerSettings,
) -> Map<Seq<char>, AgentServerSettings> {
    if table.contains_key(name) && table[name] == kind {
        table.remove(name)
    } else {
        table
    }
}

impl Settings {
    /// Both tables hold each key once.
    pub open spec fn wf(&self) -> bool {
        &&& self.context_servers.wf()
        &&& (self.agent_servers matches Some(table) ==> table.wf())
    }

    /// Records in the settings that the context server `id` is enabled or not,
    /// creating an extension entry for it when it has none.
    pub fn set_context_server_enabled(&mut self, id: &String, enabled: bool)
        requires
            old(self).wf(),
        ensures
            final(self).wf(),
            final(self).context_servers.view() == context_servers_after_switch(
                old(self).context_servers.view(),
                id@,
                enabled,
            ),
            final(self).agent_servers == old(self).agent_servers,
    {
        let mut content = match self.context_servers.get(id) {
            Some(content) => content,
            None => ContextServerSettingsContent::Extension { enabled, remote: false },
        };
        content.set_enabled(enabled);
        self.context_servers.insert(id.clone(), content);
    }

    /// Removes the context server `id` from the settings.
    pub fn remove_context_server(&mut self, id: &String)
        requires
            old(self).wf(),
        ensures
            final(self).wf(),
            final(self).context_servers.view() == old(self).context_servers.view().remove(id@),
            final(self).agent_servers == old(self).agent_servers,
    {
        self.context_servers.remove(id);
    }

    /// Removes the agent server `name` from the settings when it was added in the
    /// way `kind` says; any other entry, and a missing table, stay as they are.
    pub fn remove_agent_server(&mut self, name: &String, kind: AgentServerSettings)
        requires
            old(self).wf(),
        ensures
            final(self).wf(),
            final(self).context_servers == old(self).context_servers,
            final(self).agent_servers is Some == old(self).agent_servers is Some,
            old(self).agent_servers matches Some(table) ==> final(self).agent_servers->0.view()
                == agent_servers_after_removal(table.view(), name@, kind),
    {
        match &mut self.agent_servers {
            Some(table) => {
                let matches_kind = match table.get(name) {
                    Some(entry) => entry == kind,
                    None => false,
                };
                if matches_kind {
                    table.remove(name);
                }
            },
            None => {},
        }
    }
}

/// Read after write: after a switch is set, the server's entry is enabled exactly
/// when the switch is on, keeps the kind it had (or is a new, local extension
/// entry), and every other server's entry is as it was.
pub proof fn lemma_switch_reads_back(
    table: Map<Seq<char>, ContextServerSettingsContent>,
    id: Seq<char>,
    enabled: bool,
    other: Seq<char>,
)
    requires
        other != id,
    ensures
        context_servers_after_switch(table, id, enabled).contains_key(id),
        context_servers_after_switch(table, id, enabled)[id].is_enabled() == enabled,
        table.contains_key(id) ==> context_servers_after_switch(table, id, enabled)[id] == table[id].with_enabled(
            enabled,
        ),
        !table.contains_key(id) ==> context_servers_after_switch(table, id, enabled)[id]
            == default_context_server_settings(enabled),
        context_servers_after_switch(table, id, enabled).contains_key(other) == table.contains_key(other),
        table.contains_key(other) ==> context_servers_after_switch(table, id, enabled)[other] == table[other],
{
}

/// The last switch wins: setting a server's switch twice leaves the settings as
/// setting it once to the second state.
pub proof fn lemma_switch_last_wins(
    table: Map<Seq<char>, ContextServerSettingsContent>,
    id: Seq<char>,
    first: bool,
    second: bool,
)
    ensures
        context_servers_after_switch(context_servers_after_switch(table, id, first), id, second)
            == context_servers_after_switch(table, id, second),
{
    let once = context_servers_after_switch(table, id, second);
    let twice = context_servers_after_switch(context_servers_after_switch(table, id, first), id, second);
    assert(twice =~= once);
}

/// Removing an agent's entry touches no other name, and removes the entry only
/// when it is of the kind asked for.
pub proof fn lemma_agent_removal_keeps_others(
    table: Map<Seq<char>, AgentServerSettings>,
    name: Seq<char>,
    kind: AgentServerSettings,
    other: Seq<char>,
)
    requires
        other != name,
    ensures
        agent_servers_after_removal(table, name, kind).contains_key(other) == table.contains_key(other),
        table.contains_key(other) ==> agent_servers_after_removal(table, name, kind)[other] == table[other],
        agent_servers_after_removal(table, name, kind).contains_key(name) <==> (table.contains_key(name)
            && table[name] != kind),
{
}

/// A switch keeps the kind of an existing entry: a custom entry stays custom,
/// an HTTP entry stays HTTP, an extension entry stays an extension entry with
/// the same `remote` flag; only `enabled` changes, to the switch's state. A
/// server with no entry gets a local extension entry.
pub proof fn lemma_switch_keeps_kind(
    table: Map<Seq<char>, ContextServerSettingsContent>,
    id: Seq<char>,
    enabled: bool,
)
    ensures
        table.contains_key(id) && (table[id] is Custom) ==> context_servers_after_switch(table, id, enabled)[id] == (
        ContextServerSettingsContent::Custom { enabled }),
        table.contains_key(id) && (table[id] is Http) ==> context_servers_after_switch(table, id, enabled)[id] == (
        ContextServerSettingsContent::Http { enabled }),
        table.contains_key(id) && (table[id] is Extension) ==> context_servers_after_switch(table, id, enabled)[id]
            == (ContextServerSettingsContent::Extension { enabled, remote: table[id]->remote }),
        !table.contains_key(id) ==> context_servers_after_switch(table, id, enabled)[id] == (
        ContextServerSettingsContent::Extension { enabled, remote: false }),
{
}

} // verus!

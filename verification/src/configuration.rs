//! The configuration panel as a whole: what it knows, and the two sections it
//! shows.

use vstd::prelude::*;

use crate::agent_server::{
    agent_row_spec, agent_rows, agent_rows_spec, is_agent_order, lemma_agent_rows_deterministic, AgentRow,
    AgentServerEntry,
};
use crate::context_server::{context_server_row, context_server_row_spec, ContextServerEntry, ContextServerRow};
use crate::extension::InstalledExtension;
use crate::section::{as_items, interspersed, items_agree, lemma_interspersed_agree, section_children, SectionItem};

verus! {

/// What the agent configuration panel shows its rows from.
pub struct AgentConfiguration {
    /// The context servers that the store knows, in its order.
    pub context_servers: Vec<ContextServerEntry>,
    /// The installed extensions, in the order the extension store lists them.
    pub installed_extensions: Vec<InstalledExtension>,
    /// The external agents that the agent-server store knows.
    pub agents: Vec<AgentServerEntry>,
}

/// The context-server section's list.
pub enum ContextServersSection {
    /// No server yet: the list says "No MCP servers added yet."
    Empty,
    /// A row for each server, with dividers between them.
    Servers(Vec<SectionItem<ContextServerRow>>),
}

/// The context-server list that the panel shows for `config`.
pub open spec fn context_servers_section_spec(config: AgentConfiguration, section: ContextServersSection) -> bool {
    match section {
        ContextServersSection::Empty => config.context_servers@.len() == 0,
        ContextServersSection::Servers(items) => {
            &&& config.context_servers@.len() > 0
            &&& exists|rows: Seq<ContextServerRow>|
                {
                    &&& rows.len() == config.context_servers@.len()
                    &&& forall|k: int|
                        0 <= k < rows.len() ==> context_server_row_spec(
                            #[trigger] rows[k],
                            config.context_servers@[k],
                            config.installed_extensions@,
                        )
                    &&& items@ == interspersed(as_items(rows), SectionItem::Divider)
                }
        },
    }
}

/// The agent list that the panel shows for `config`.
pub open spec fn agent_servers_section_spec(config: AgentConfiguration, items: Seq<SectionItem<AgentRow>>) -> bool {
    exists|rows: Seq<AgentRow>| agent_rows_spec(rows, config.agents@) && items == interspersed(as_items(rows), SectionItem::Divider)
}

/// Two context-server rows describe the same server of `config`.
pub open spec fn same_server_row(config: AgentConfiguration) -> spec_fn(ContextServerRow, ContextServerRow) -> bool {
    |a: ContextServerRow, b: ContextServerRow|
        exists|k: int|
            0 <= k < config.context_servers@.len() && context_server_row_spec(
                a,
                config.context_servers@[k],
                config.installed_extensions@,
            ) && context_server_row_spec(b, config.context_servers@[k], config.installed_extensions@)
}

/// Two agent rows describe the same agent of `config`.
pub open spec fn same_agent_row(config: AgentConfiguration) -> spec_fn(AgentRow, AgentRow) -> bool {
    |a: AgentRow, b: AgentRow|
        exists|k: int| 0 <= k < config.agents@.len() && agent_row_spec(a, config.agents@[k]) && agent_row_spec(b, config.agents@[k])
}

/// Showing the panel twice with nothing changed in between shows the same
/// lists: the same kind of context-server list, and in both sections dividers at
/// the same places and, at each other place, rows that describe the same server
/// or agent (and so agree in every shown field).
pub proof fn lemma_sections_deterministic(
    config: AgentConfiguration,
    servers1: ContextServersSection,
    servers2: ContextServersSection,
    agents1: Seq<SectionItem<AgentRow>>,
    agents2: Seq<SectionItem<AgentRow>>,
)
    requires
        context_servers_section_spec(config, servers1),
        context_servers_section_spec(config, servers2),
        agent_servers_section_spec(config, agents1),
        agent_servers_section_spec(config, agents2),
    ensures
        servers1 is Empty <==> servers2 is Empty,
        servers1 matches ContextServersSection::Servers(items1) ==> servers2 matches ContextServersSection::Servers(items2)
            && items_agree(items1@, items2@, same_server_row(config)),
        items_agree(agents1, agents2, same_agent_row(config)),
{
    if let ContextServersSection::Servers(items1) = servers1 {
        if let ContextServersSection::Servers(items2) = servers2 {
            let rows1 = choose|rows: Seq<ContextServerRow>|
                {
                    &&& rows.len() == config.context_servers@.len()
                    &&& forall|k: int|
                        0 <= k < rows.len() ==> context_server_row_spec(
                            #[trigger] rows[k],
                            config.context_servers@[k],
                            config.installed_extensions@,
                        )
                    &&& items1@ == interspersed(as_items(rows), SectionItem::Divider)
                };
            let rows2 = choose|rows: Seq<ContextServerRow>|
                {
                    &&& rows.len() == config.context_servers@.len()
                    &&& forall|k: int|
                        0 <= k < rows.len() ==> context_server_row_spec(
                            #[trigger] rows[k],
                            config.context_servers@[k],
                            config.installed_extensions@,
                        )
                    &&& items2@ == interspersed(as_items(rows), SectionItem::Divider)
                };
            let same = same_server_row(config);
            assert forall|k: int| 0 <= k < rows1.len() implies same(#[trigger] rows1[k], rows2[k]) by {
                assert(context_server_row_spec(rows2[k], config.context_servers@[k], config.installed_extensions@));
            }
            lemma_interspersed_agree(rows1, rows2, same);
        }
    }
    let r1 = choose|rows: Seq<AgentRow>|
        agent_rows_spec(rows, config.agents@) && agents1 == interspersed(as_items(rows), SectionItem::Divider);
    let r2 = choose|rows: Seq<AgentRow>|
        agent_rows_spec(rows, config.agents@) && agents2 == interspersed(as_items(rows), SectionItem::Divider);
    lemma_agent_rows_deterministic(config.agents@, r1, r2);
    let order = choose|order: Seq<usize>|
        is_agent_order(config.agents@, order) && forall|k: int|
            0 <= k < r1.len() ==> agent_row_spec(#[trigger] r1[k], config.agents@[order[k] as int])
                && agent_row_spec(r2[k], config.agents@[order[k] as int]);
    let same = same_agent_row(config);
    assert forall|k: int| 0 <= k < r1.len() implies same(#[trigger] r1[k], r2[k]) by {
        assert(agent_row_spec(r1[k], config.agents@[order[k] as int]));
        assert(agent_row_spec(r2[k], config.agents@[order[k] as int]));
        assert(order[k] < config.agents@.len());
    }
    lemma_interspersed_agree(r1, r2, same);
}

impl AgentConfiguration {
    /// A panel that shows the given servers, extensions and agents.
    pub fn new(
        context_servers: Vec<ContextServerEntry>,
        installed_extensions: Vec<InstalledExtension>,
        agents: Vec<AgentServerEntry>,
    ) -> (res: Self)
        ensures
            res.context_servers == context_servers,
            res.installed_extensions == installed_extensions,
            res.agents == agents,
    {
        AgentConfiguration { context_servers, installed_extensions, agents }
    }

    /// The list of the context-server section: the empty notice when there is no
    /// server, else a row for each server in the store's order, with dividers.
    pub fn context_servers_section(&self) -> (res: ContextServersSection)
        ensures
            context_servers_section_spec(*self, res),
    {
        if self.context_servers.len() == 0 {
            return ContextServersSection::Empty;
        }
        let mut rows: Vec<ContextServerRow> = Vec::new();
        let mut k: usize = 0;
        while k < self.context_servers.len()
            invariant
                k <= self.context_servers@.len(),
                rows@.len() == k,
                forall|m: int|
                    0 <= m < k ==> context_server_row_spec(
                        #[trigger] rows@[m],
                        self.context_servers@[m],
                        self.installed_extensions@,
                    ),
            decreases self.context_servers@.len() - k,
        {
            rows.push(context_server_row(&self.context_servers[k], &self.installed_extensions));
            k = k + 1;
        }
        let ghost row_view = rows@;
        let items = section_children(rows);
        assert(items@ == interspersed(as_items(row_view), SectionItem::Divider));
        ContextServersSection::Servers(items)
    }

    /// The list of the agent section: a row for each agent, ordered by the
    /// lower-cased shown name, with dividers.
    pub fn agent_servers_section(&self) -> (res: Vec<SectionItem<AgentRow>>)
        ensures
            agent_servers_section_spec(*self, res@),
    {
        let rows = agent_rows(&self.agents);
        let ghost row_view = rows@;
        let items = section_children(rows);
        assert(agent_rows_spec(row_view, self.agents@));
        items
    }
}

} // verus!

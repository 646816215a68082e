//! The rows of the external-agent section: their order, what each row shows,
//! and which buttons it offers.

use itertools::Itertools;
use vstd::prelude::*;

use crate::context_server::{ItemSource, ItemStatus};
use crate::settings::{agent_servers_after_removal, AgentServerSettings, Settings};
use crate::text::{lemma_text_le_antisymmetric, lowercase_of, prefixed, text_le, to_lowercase};

verus! {

broadcast use vstd::seq_lib::group_to_multiset_ensures;

/// How an external agent was added.
#[derive(Clone, Copy, Debug, PartialEq, Eq, Structural)]
pub enum ExternalAgentSource {
    Extension,
    Registry,
    Custom,
}

impl Default for ExternalAgentSource {
    /// An agent whose source the store does not report counts as custom.
    fn default() -> (res: Self)
        ensures
            res == ExternalAgentSource::Custom,
    {
        ExternalAgentSource::Custom
    }
}

/// The state of the connection to an external agent.
#[derive(Clone, Copy, Debug, PartialEq, Eq, Structural)]
pub enum AgentConnectionStatus {
    Disconnected,
    Connecting,
    Connected,
}

/// The icon of an agent's row.
#[derive(Debug)]
pub enum AgentIcon {
    /// The generic sparkle icon.
    Sparkle,
    /// An SVG file that the agent brings.
    Path(String),
}

/// What the panel knows of one external agent.
pub struct AgentServerEntry {
    pub name: String,
    pub icon_path: Option<String>,
    pub display_name: Option<String>,
    pub source: Option<ExternalAgentSource>,
    pub connection: AgentConnectionStatus,
}

/// The button that restarts an agent's connection.
pub struct RestartButton {
    pub element_id: String,
    /// Disabled while the connection is being made.
    pub disabled: bool,
}

/// What removing an agent does.
#[derive(Clone, Copy, Debug, PartialEq, Eq, Structural)]
pub enum AgentRemoval {
    /// Uninstall the extension that provides the agent.
    UninstallExtension,
    /// Remove the agent's registry entry from the settings.
    RemoveRegistryAgent,
    /// Remove the agent's custom entry from the settings.
    RemoveCustomAgent,
}

/// The button that removes an agent.
pub struct UninstallButton {
    pub element_id: String,
    pub tooltip: String,
    pub removal: AgentRemoval,
}

/// One row of the external-agent section.
pub struct AgentRow {
    pub id: String,
    pub display_name: String,
    pub icon: AgentIcon,
    pub source: ItemSource,
    pub status: ItemStatus,
    pub restart: Option<RestartButton>,
    pub uninstall: UninstallButton,
}

/// The name shown for an agent: the one the store reports, else its id.
pub open spec fn agent_display_name_spec(entry: AgentServerEntry) -> Seq<char> {
    match entry.display_name {
        Some(d) => d@,
        None => entry.name@,
    }
}

/// The key the rows are ordered by: the shown name in lower case.
pub open spec fn agent_sort_key(entry: AgentServerEntry) -> Seq<char> {
    lowercase_of(agent_display_name_spec(entry))
}

/// The source of an agent; one the store does not report counts as custom.
pub open spec fn agent_source_spec(entry: AgentServerEntry) -> ExternalAgentSource {
    match entry.source {
        Some(s) => s,
        None => ExternalAgentSource::Custom,
    }
}

/// The source shown for an agent source.
pub open spec fn source_kind_spec(source: ExternalAgentSource) -> ItemSource {
    match source {
        ExternalAgentSource::Extension => ItemSource::Extension,
        ExternalAgentSource::Registry => ItemSource::Registry,
        ExternalAgentSource::Custom => ItemSource::Custom,
    }
}

/// The badge for a connection status.
pub open spec fn agent_status_spec(status: AgentConnectionStatus) -> ItemStatus {
    match status {
        AgentConnectionStatus::Disconnected => ItemStatus::Stopped,
        AgentConnectionStatus::Connecting => ItemStatus::Starting,
        AgentConnectionStatus::Connected => ItemStatus::Running,
    }
}

/// What removing an agent of this source does.
pub open spec fn removal_spec(source: ExternalAgentSource) -> AgentRemoval {
    match source {
        ExternalAgentSource::Extension => AgentRemoval::UninstallExtension,
        ExternalAgentSource::Registry => AgentRemoval::RemoveRegistryAgent,
        ExternalAgentSource::Custom => AgentRemoval::RemoveCustomAgent,
    }
}

/// The tooltip of the removal button.
pub open spec fn removal_tooltip_spec(removal: AgentRemoval) -> Seq<char> {
    match removal {
        AgentRemoval::UninstallExtension => "Uninstall Agent Extension"@,
        AgentRemoval::RemoveRegistryAgent => "Remove Registry Agent"@,
        AgentRemoval::RemoveCustomAgent => "Remove Custom Agent"@,
    }
}

/// The row describes the agent `entry`.
pub open spec fn agent_row_spec(row: AgentRow, entry: AgentServerEntry) -> bool {
    let removal = removal_spec(agent_source_spec(entry));
    &&& row.id@ == entry.name@
    &&& row.display_name@ == agent_display_name_spec(entry)
    &&& match entry.icon_path {
        Some(p) => row.icon matches AgentIcon::Path(q) && q@ == p@,
        None => row.icon is Sparkle,
    }
    &&& row.source == source_kind_spec(agent_source_spec(entry))
    &&& row.status == agent_status_spec(entry.connection)
    &&& match row.restart {
        Some(b) => {
            &&& entry.connection != AgentConnectionStatus::Disconnected
            &&& b.element_id@ == "restart-"@ + entry.name@
            &&& b.disabled == (entry.connection == AgentConnectionStatus::Connecting)
        },
        None => entry.connection == AgentConnectionStatus::Disconnected,
    }
    &&& row.uninstall.element_id@ == "uninstall-"@ + entry.name@
    &&& row.uninstall.removal == removal
    &&& row.uninstall.tooltip@ == removal_tooltip_spec(removal)
}

/// The positions `0..n`, each once, in some order.
pub open spec fn is_index_permutation(order: Seq<usize>, n: nat) -> bool {
    &&& order.len() == n
    &&& order.no_duplicates()
    &&& forall|k: int| 0 <= k < n ==> #[trigger] order[k] < n
    &&& forall|i: int| 0 <= i < n ==> #[trigger] order.contains(i as usize)
}

/// The agent at position `a` is listed no later than the one at `b`: by the
/// lower-cased shown name, and between equal names by position.
pub open spec fn agent_before(agents: Seq<AgentServerEntry>, a: usize, b: usize) -> bool {
    &&& text_le(agent_sort_key(agents[a as int]), agent_sort_key(agents[b as int]))
    &&& (agent_sort_key(agents[a as int]) == agent_sort_key(agents[b as int]) ==> a <= b)
}

/// The positions are listed in the section's order.
pub open spec fn is_agent_order(agents: Seq<AgentServerEntry>, order: Seq<usize>) -> bool {
    &&& is_index_permutation(order, agents.len())
    &&& forall|i: int, j: int|
        0 <= i < j < order.len() ==> agent_before(agents, #[trigger] order[i], #[trigger] order[j])
}

/// The badge for a connection status.
pub fn agent_status(status: AgentConnectionStatus) -> (res: ItemStatus)
    ensures
        res == agent_status_spec(status),
{
    match status {
        AgentConnectionStatus::Disconnected => ItemStatus::Stopped,
        AgentConnectionStatus::Connecting => ItemStatus::Starting,
        AgentConnectionStatus::Connected => ItemStatus::Running,
    }
}

/// The button that restarts the connection to the agent `id`: offered while the
/// agent is connected or connecting, disabled while connecting.
pub fn restart_button(id: &String, status: AgentConnectionStatus) -> (res: Option<RestartButton>)
    ensures
        match res {
            Some(b) => {
                &&& status != AgentConnectionStatus::Disconnected
                &&& b.element_id@ == "restart-"@ + id@
                &&& b.disabled == (status == AgentConnectionStatus::Connecting)
            },
            None => status == AgentConnectionStatus::Disconnected,
        },
{
    match status {
        AgentConnectionStatus::Disconnected => None,
        _ => Some(
            RestartButton {
                element_id: prefixed("restart-", id.as_str()),
                disabled: status == AgentConnectionStatus::Connecting,
            },
        ),
    }
}

/// The button that removes the agent `id` of the given source.
pub fn uninstall_button(id: &String, source: ExternalAgentSource) -> (res: UninstallButton)
    ensures
        res.element_id@ == "uninstall-"@ + id@,
        res.removal == removal_spec(source),
        res.tooltip@ == removal_tooltip_spec(removal_spec(source)),
{
    let (removal, tooltip) = match source {
        ExternalAgentSource::Extension => (AgentRemoval::UninstallExtension, "Uninstall Agent Extension"),
        ExternalAgentSource::Registry => (AgentRemoval::RemoveRegistryAgent, "Remove Registry Agent"),
        ExternalAgentSource::Custom => (AgentRemoval::RemoveCustomAgent, "Remove Custom Agent"),
    };
    UninstallButton { element_id: prefixed("uninstall-", id.as_str()), tooltip: tooltip.to_owned(), removal }
}

/// The name shown for an agent.
pub fn agent_display_name(entry: &AgentServerEntry) -> (res: String)
    ensures
        res@ == agent_display_name_spec(*entry),
{
    match &entry.display_name {
        Some(d) => d.clone(),
        None => entry.name.clone(),
    }
}

/// The row for the agent `entry`.
pub fn agent_row(entry: &AgentServerEntry) -> (res: AgentRow)
    ensures
        agent_row_spec(res, *entry),
        entry.source == Some(ExternalAgentSource::Extension) ==> res.source == ItemSource::Extension,
        entry.source == Some(ExternalAgentSource::Registry) ==> res.source == ItemSource::Registry,
        entry.source != Some(ExternalAgentSource::Extension) && entry.source != Some(ExternalAgentSource::Registry)
            ==> res.source == ItemSource::Custom,
{
    let icon = match &entry.icon_path {
        Some(p) => AgentIcon::Path(p.clone()),
        None => AgentIcon::Sparkle,
    };
    let source = entry.source.unwrap_or_default();
    let kind = match source {
        ExternalAgentSource::Extension => ItemSource::Extension,
        ExternalAgentSource::Registry => ItemSource::Registry,
        ExternalAgentSource::Custom => ItemSource::Custom,
    };
    AgentRow {
        id: entry.name.clone(),
        display_name: agent_display_name(entry),
        icon,
        source: kind,
        status: agent_status(entry.connection),
        restart: restart_button(&entry.name, entry.connection),
        uninstall: uninstall_button(&entry.name, source),
    }
}

/// Pairs ordered as `(String, usize)` orders them: by the text's UTF-8 bytes,
/// and between equal texts by the number.
pub open spec fn pair_le(p: (String, usize), q: (String, usize)) -> bool {
    &&& text_le(p.0@, q.0@)
    &&& (p.0@ == q.0@ ==> p.1 <= q.1)
}

/// Calls itertools' `sorted_unstable_by_key`, keyed by the pair itself, and
/// collects the result. The contract claims what itertools and std document: the
/// result holds the same pairs in ascending order of `(String, usize)`, whose
/// `String` part orders texts by their UTF-8 bytes.
#[verifier::external_body]
fn sort_pairs(items: Vec<(String, usize)>) -> (res: Vec<(String, usize)>)
    ensures
        res@.to_multiset() == items@.to_multiset(),
        forall|i: int, j: int| 0 <= i < j < res@.len() ==> pair_le(#[trigger] res@[i], #[trigger] res@[j]),
{
    items.into_iter().sorted_unstable_by_key(|item: &(String, usize)| item.clone()).collect()
}

/// The order in which the section lists the agents: every position once, by the
/// lower-cased shown name, and between equal names by position.
pub fn sorted_agent_order(agents: &Vec<AgentServerEntry>) -> (order: Vec<usize>)
    ensures
        is_agent_order(agents@, order@),
{
    let n = agents.len();
    let mut keyed: Vec<(String, usize)> = Vec::new();
    let mut i: usize = 0;
    while i < n
        invariant
            n == agents@.len(),
            i <= n,
            keyed@.len() == i,
            forall|k: int| 0 <= k < i ==> (#[trigger] keyed@[k]).1 == k && keyed@[k].0@ == agent_sort_key(agents@[k]),
        decreases n - i,
    {
        let name = agent_display_name(&agents[i]);
        let key = to_lowercase(name.as_str());
        keyed.push((key, i));
        i = i + 1;
    }
    let ghost keyed_view = keyed@;
    proof {
        assert(keyed_view.no_duplicates()) by {
            assert forall|a: int, b: int| 0 <= a < keyed_view.len() && 0 <= b < keyed_view.len() && a != b implies keyed_view[a]
                != keyed_view[b] by {
                assert(keyed_view[a].1 == a);
                assert(keyed_view[b].1 == b);
            }
        }
        keyed_view.lemma_multiset_has_no_duplicates();
    }
    let sorted = sort_pairs(keyed);
    let ghost sorted_view = sorted@;
    proof {
        assert forall|x: (String, usize)| sorted_view.to_multiset().contains(x) implies sorted_view.to_multiset().count(x)
            == 1 by {
            assert(keyed_view.to_multiset().contains(x));
        }
        sorted_view.lemma_multiset_has_no_duplicates_conv();
        assert(sorted_view.len() == keyed_view.len()) by {
            assert(sorted_view.to_multiset().len() == keyed_view.to_multiset().len());
        }
        assert forall|k: int| 0 <= k < sorted_view.len() implies exists|a: int|
            0 <= a < n && keyed_view[a] == #[trigger] sorted_view[k] by {
            assert(sorted_view.contains(sorted_view[k]));
            assert(sorted_view.to_multiset().count(sorted_view[k]) > 0);
            assert(keyed_view.to_multiset().count(sorted_view[k]) > 0);
            assert(keyed_view.contains(sorted_view[k]));
        }
        assert forall|a: int| 0 <= a < n implies exists|k: int|
            0 <= k < n && #[trigger] keyed_view[a] == sorted_view[k] by {
            assert(keyed_view.contains(keyed_view[a]));
            assert(keyed_view.to_multiset().count(keyed_view[a]) > 0);
            assert(sorted_view.to_multiset().count(keyed_view[a]) > 0);
            assert(sorted_view.contains(keyed_view[a]));
        }
    }
    let mut order: Vec<usize> = Vec::new();
    let mut k: usize = 0;
    while k < sorted.len()
        invariant
            sorted@ == sorted_view,
            sorted_view.len() == n,
            n == agents@.len(),
            k <= n,
            order@.len() == k,
            forall|m: int| 0 <= m < k ==> #[trigger] order@[m] == sorted_view[m].1,
        decreases n - k,
    {
        order.push(sorted[k].1);
        k = k + 1;
    }
    proof {
        assert forall|m: int| 0 <= m < n implies #[trigger] order@[m] < n && sorted_view[m].0@ == agent_sort_key(
            agents@[order@[m] as int],
        ) by {
            let a = choose|a: int| 0 <= a < n && keyed_view[a] == sorted_view[m];
            assert(keyed_view[a].1 == a);
        }
        assert forall|a: int, b: int| 0 <= a < n && 0 <= b < n && a != b implies order@[a] != order@[b] by {
            let x = choose|x: int| 0 <= x < n && keyed_view[x] == sorted_view[a];
            let y = choose|y: int| 0 <= y < n && keyed_view[y] == sorted_view[b];
            assert(keyed_view[x].1 == x);
            assert(keyed_view[y].1 == y);
            assert(sorted_view[a] != sorted_view[b]);
        }
        assert forall|a: int| 0 <= a < n implies #[trigger] order@.contains(a as usize) by {
            let k = choose|k: int| 0 <= k < n && #[trigger] keyed_view[a] == sorted_view[k];
            assert(keyed_view[a].1 == a);
            assert(order@[k] == a as usize);
        }
        assert forall|i: int, j: int| 0 <= i < j < order@.len() implies agent_before(
            agents@,
            #[trigger] order@[i],
            #[trigger] order@[j],
        ) by {
            assert(pair_le(sorted_view[i], sorted_view[j]));
        }
    }
    order
}

/// Two lists of positions that both list the agents in the section's order are
/// the same list.
pub proof fn lemma_agent_order_unique(agents: Seq<AgentServerEntry>, o1: Seq<usize>, o2: Seq<usize>)
    requires
        is_agent_order(agents, o1),
        is_agent_order(agents, o2),
    ensures
        o1 == o2,
{
    assert forall|x: usize| o1.contains(x) <==> o2.contains(x) by {
        if o1.contains(x) {
            let k = choose|k: int| 0 <= k < o1.len() && o1[k] == x;
            assert(o2.contains(o1[k] as int as usize));
        }
        if o2.contains(x) {
            let k = choose|k: int| 0 <= k < o2.len() && o2[k] == x;
            assert(o1.contains(o2[k] as int as usize));
        }
    }
    lemma_sorted_positions_equal(agents, o1, o2);
}

/// Two duplicate-free lists with the same elements, both listed in the
/// section's order, are equal.
proof fn lemma_sorted_positions_equal(agents: Seq<AgentServerEntry>, o1: Seq<usize>, o2: Seq<usize>)
    requires
        o1.len() == o2.len(),
        o1.no_duplicates(),
        o2.no_duplicates(),
        forall|x: usize| o1.contains(x) <==> o2.contains(x),
        forall|i: int, j: int| 0 <= i < j < o1.len() ==> agent_before(agents, #[trigger] o1[i], #[trigger] o1[j]),
        forall|i: int, j: int| 0 <= i < j < o2.len() ==> agent_before(agents, #[trigger] o2[i], #[trigger] o2[j]),
    ensures
        o1 == o2,
    decreases o1.len(),
{
    if o1.len() > 0 {
        let x = o1[0];
        let y = o2[0];
        if x != y {
            assert(o1.contains(x));
            let p = choose|p: int| 0 <= p < o2.len() && o2[p] == x;
            assert(o2.contains(y));
            let q = choose|q: int| 0 <= q < o1.len() && o1[q] == y;
            assert(p > 0 && q > 0);
            assert(agent_before(agents, o2[0], o2[p]));
            assert(agent_before(agents, o1[0], o1[q]));
            lemma_text_le_antisymmetric(agent_sort_key(agents[x as int]), agent_sort_key(agents[y as int]));
        }
        let r1 = o1.drop_first();
        let r2 = o2.drop_first();
        assert forall|z: usize| r1.contains(z) <==> r2.contains(z) by {
            if r1.contains(z) {
                let k = choose|k: int| 0 <= k < r1.len() && r1[k] == z;
                assert(o1[k + 1] == z);
                assert(z != x);
                assert(o1.contains(z));
                let m = choose|m: int| 0 <= m < o2.len() && o2[m] == z;
                assert(m != 0);
                assert(r2[m - 1] == z);
            }
            if r2.contains(z) {
                let k = choose|k: int| 0 <= k < r2.len() && r2[k] == z;
                assert(o2[k + 1] == z);
                assert(z != y);
                assert(o2.contains(z));
                let m = choose|m: int| 0 <= m < o1.len() && o1[m] == z;
                assert(m != 0);
                assert(r1[m - 1] == z);
            }
        }
        assert forall|i: int, j: int| 0 <= i < j < r1.len() implies agent_before(agents, #[trigger] r1[i], #[trigger] r1[j]) by {
            assert(r1[i] == o1[i + 1] && r1[j] == o1[j + 1]);
        }
        assert forall|i: int, j: int| 0 <= i < j < r2.len() implies agent_before(agents, #[trigger] r2[i], #[trigger] r2[j]) by {
            assert(r2[i] == o2[i + 1] && r2[j] == o2[j + 1]);
        }
        lemma_sorted_positions_equal(agents, r1, r2);
        assert(o1 =~= seq![x] + r1);
        assert(o2 =~= seq![y] + r2);
    }
}

/// The rows list the agents, one row each, in the section's order.
pub open spec fn agent_rows_spec(rows: Seq<AgentRow>, agents: Seq<AgentServerEntry>) -> bool {
    &&& rows.len() == agents.len()
    &&& exists|order: Seq<usize>|
        is_agent_order(agents, order) && forall|k: int|
            0 <= k < rows.len() ==> agent_row_spec(#[trigger] rows[k], agents[order[k] as int])
    &&& forall|i: int, j: int|
        0 <= i < j < rows.len() ==> text_le(
            lowercase_of((#[trigger] rows[i]).display_name@),
            lowercase_of((#[trigger] rows[j]).display_name@),
        )
}

/// The rows of the agent section: one for each agent, ordered by the lower-cased
/// shown name, and between equal names by the agents' positions.
pub fn agent_rows(agents: &Vec<AgentServerEntry>) -> (rows: Vec<AgentRow>)
    ensures
        agent_rows_spec(rows@, agents@),
{
    let order = sorted_agent_order(agents);
    let mut rows: Vec<AgentRow> = Vec::new();
    let mut k: usize = 0;
    while k < order.len()
        invariant
            is_agent_order(agents@, order@),
            k <= order@.len(),
            rows@.len() == k,
            forall|m: int| 0 <= m < k ==> agent_row_spec(#[trigger] rows@[m], agents@[order@[m] as int]),
        decreases order@.len() - k,
    {
        rows.push(agent_row(&agents[order[k]]));
        k = k + 1;
    }
    proof {
        assert forall|i: int, j: int| 0 <= i < j < rows@.len() implies text_le(
            lowercase_of((#[trigger] rows@[i]).display_name@),
            lowercase_of((#[trigger] rows@[j]).display_name@),
        ) by {
            assert(agent_row_spec(rows@[i], agents@[order@[i] as int]));
            assert(agent_row_spec(rows@[j], agents@[order@[j] as int]));
            assert(agent_before(agents@, order@[i], order@[j]));
        }
    }
    rows
}

/// The agent rows are a function of the agents: two lists of rows that both
/// satisfy the contract of `agent_rows` describe, position by position, the same
/// agent, so they agree in every shown field.
pub proof fn lemma_agent_rows_deterministic(
    agents: Seq<AgentServerEntry>,
    rows1: Seq<AgentRow>,
    rows2: Seq<AgentRow>,
)
    requires
        agent_rows_spec(rows1, agents),
        agent_rows_spec(rows2, agents),
    ensures
        rows1.len() == rows2.len(),
        exists|order: Seq<usize>|
            is_agent_order(agents, order) && forall|k: int|
                0 <= k < rows1.len() ==> agent_row_spec(#[trigger] rows1[k], agents[order[k] as int])
                    && agent_row_spec(rows2[k], agents[order[k] as int]),
        forall|k: int|
            0 <= k < rows1.len() ==> {
                &&& (#[trigger] rows1[k]).id@ == rows2[k].id@
                &&& rows1[k].display_name@ == rows2[k].display_name@
                &&& rows1[k].source == rows2[k].source
                &&& rows1[k].status == rows2[k].status
                &&& rows1[k].restart is Some == rows2[k].restart is Some
                &&& rows1[k].uninstall.removal == rows2[k].uninstall.removal
                &&& rows1[k].uninstall.element_id@ == rows2[k].uninstall.element_id@
                &&& rows1[k].uninstall.tooltip@ == rows2[k].uninstall.tooltip@
            },
{
    let o1 = choose|order: Seq<usize>|
        is_agent_order(agents, order) && forall|k: int|
            0 <= k < rows1.len() ==> agent_row_spec(#[trigger] rows1[k], agents[order[k] as int]);
    let o2 = choose|order: Seq<usize>|
        is_agent_order(agents, order) && forall|k: int|
            0 <= k < rows2.len() ==> agent_row_spec(#[trigger] rows2[k], agents[order[k] as int]);
    lemma_agent_order_unique(agents, o1, o2);
    assert forall|k: int| 0 <= k < rows1.len() implies agent_row_spec(#[trigger] rows1[k], agents[o1[k] as int])
        && agent_row_spec(rows2[k], agents[o1[k] as int]) by {
        assert(agent_row_spec(rows2[k], agents[o2[k] as int]));
    }
}

/// What the settings become when the user removes the agent `name` with a removal
/// of the given kind: a registry or custom agent loses its settings entry (only if
/// the entry is of that kind); for an extension agent the settings stay as they
/// are and the answer is `false`, as the extension has to be uninstalled instead.
pub fn remove_agent_from_settings(settings: &mut Settings, name: &String, removal: AgentRemoval) -> (res: bool)
    requires
        old(settings).wf(),
    ensures
        res == (removal != AgentRemoval::UninstallExtension),
        final(settings).wf(),
        final(settings).context_servers == old(settings).context_servers,
        final(settings).agent_servers is Some == old(settings).agent_servers is Some,
        old(settings).agent_servers matches Some(table) ==> final(settings).agent_servers->0.view() == match removal {
            AgentRemoval::UninstallExtension => table.view(),
            AgentRemoval::RemoveRegistryAgent => agent_servers_after_removal(
                table.view(),
                name@,
                AgentServerSettings::Registry,
            ),
            AgentRemoval::RemoveCustomAgent => agent_servers_after_removal(
                table.view(),
                name@,
                AgentServerSettings::Custom,
            ),
        },
{
    match removal {
        AgentRemoval::UninstallExtension => false,
        AgentRemoval::RemoveRegistryAgent => {
            settings.remove_agent_server(name, AgentServerSettings::Registry);
            true
        },
        AgentRemoval::RemoveCustomAgent => {
            settings.remove_agent_server(name, AgentServerSettings::Custom);
            true
        },
    }
}

/// An agent row's source badge names where the agent comes from (an agent
/// whose source is not reported counts as custom), and agrees with what its
/// removal button does: uninstalling an extension, or removing a registry or a
/// custom entry from the settings.
pub proof fn lemma_agent_row_source(row: AgentRow, entry: AgentServerEntry)
    requires
        agent_row_spec(row, entry),
    ensures
        row.source == ItemSource::Extension <==> entry.source == Some(ExternalAgentSource::Extension),
        row.source == ItemSource::Registry <==> entry.source == Some(ExternalAgentSource::Registry),
        row.source == ItemSource::Custom <==> (entry.source == Some(ExternalAgentSource::Custom)
            || entry.source is None),
        row.source == ItemSource::Extension <==> row.uninstall.removal == AgentRemoval::UninstallExtension,
        row.source == ItemSource::Registry <==> row.uninstall.removal == AgentRemoval::RemoveRegistryAgent,
        row.source == ItemSource::Custom <==> row.uninstall.removal == AgentRemoval::RemoveCustomAgent,
{
}

/// An agent row's badge follows the connection, and the restart button is
/// offered exactly while the badge says running or starting, disabled exactly
/// while starting.
pub proof fn lemma_agent_row_connection(row: AgentRow, entry: AgentServerEntry)
    requires
        agent_row_spec(row, entry),
    ensures
        row.status == ItemStatus::Running <==> entry.connection == AgentConnectionStatus::Connected,
        row.status == ItemStatus::Starting <==> entry.connection == AgentConnectionStatus::Connecting,
        row.status == ItemStatus::Stopped <==> entry.connection == AgentConnectionStatus::Disconnected,
        row.restart is Some <==> row.status != ItemStatus::Stopped,
        row.restart matches Some(b) ==> (b.disabled <==> row.status == ItemStatus::Starting),
        row.id@ == entry.name@,
        row.uninstall.element_id@ == "uninstall-"@ + row.id@,
{
}

} // verus!

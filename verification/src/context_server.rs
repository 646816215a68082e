//! The rows of the context-server section: what each row shows, which entries
//! its menu offers, and what its switch does.

use vstd::prelude::*;

use crate::extension::{
    first_provider, is_first_provider, lemma_first_provider_is_first, provides_server,
    resolve_extension_for_context_server, server_name_from_extension, server_name_spec, InstalledExtension,
};
use crate::settings::{context_servers_after_switch, Settings};
use crate::text::{decimal_digits, decimal_string, suffixed};

verus! {

/// The state of a context server as its store reports it.
#[derive(Debug)]
pub enum ContextServerStatus {
    Starting,
    Running,
    /// Failed, with the error message.
    Error(String),
    Stopped,
    AuthRequired,
    Authenticating,
}

/// What the panel reads of a server's configuration: where it comes from, and for
/// a server reached over HTTP whether its headers carry a fixed authorization.
#[derive(Clone, Copy, Debug, PartialEq, Eq, Structural)]
pub enum ContextServerConfiguration {
    Custom,
    Extension,
    Http { has_static_auth_header: bool },
}

/// The status badge of a settings row.
#[derive(Clone, Copy, Debug, PartialEq, Eq, Structural)]
pub enum ItemStatus {
    Starting,
    Running,
    Error,
    Stopped,
    AuthRequired,
    Authenticating,
}

/// Where the thing behind a settings row comes from.
#[derive(Clone, Copy, Debug, PartialEq, Eq, Structural)]
pub enum ItemSource {
    Extension,
    Registry,
    Custom,
}

/// An entry of a context server's configuration menu.
#[derive(Clone, Copy, Debug, PartialEq, Eq, Structural)]
pub enum MenuEntry {
    ConfigureServer,
    ViewTools,
    LogOut,
    Separator,
    Uninstall,
}

/// The line shown under a context server's row.
#[derive(Debug)]
pub enum ServerDetails {
    /// The server failed; the message, and whether a "Log Out" button goes with it.
    Error { message: String, show_logout: bool },
    /// The server waits for the user to authenticate; an "Authenticate" button goes with it.
    AuthRequired,
    /// Authentication is under way.
    Authenticating,
}

/// What the panel knows of one context server.
pub struct ContextServerEntry {
    pub id: String,
    /// The status reported by the store, if any.
    pub status: Option<ContextServerStatus>,
    /// The configuration, if the server has one.
    pub configuration: Option<ContextServerConfiguration>,
    /// How many tools the server offers.
    pub tool_count: usize,
}

/// One row of the context-server section.
pub struct ContextServerRow {
    pub item_id: String,
    pub display_name: String,
    pub status: ItemStatus,
    pub source: ItemSource,
    /// Whether the switch is on.
    pub switch_on: bool,
    /// Whether the server is reached over HTTP.
    pub is_remote: bool,
    /// Whether the menu and the error line offer "Log Out".
    pub show_logout: bool,
    /// The tool count shown beside the name.
    pub tool_label: Option<String>,
    pub details: Option<ServerDetails>,
    pub menu: Vec<MenuEntry>,
}

/// A server with no reported status counts as stopped.
pub open spec fn status_or_stopped(status: Option<ContextServerStatus>) -> ContextServerStatus {
    match status {
        Some(s) => s,
        None => ContextServerStatus::Stopped,
    }
}

/// The badge for a server status.
pub open spec fn item_status_spec(status: ContextServerStatus) -> ItemStatus {
    match status {
        ContextServerStatus::Starting => ItemStatus::Starting,
        ContextServerStatus::Running => ItemStatus::Running,
        ContextServerStatus::Error(_) => ItemStatus::Error,
        ContextServerStatus::Stopped => ItemStatus::Stopped,
        ContextServerStatus::AuthRequired => ItemStatus::AuthRequired,
        ContextServerStatus::Authenticating => ItemStatus::Authenticating,
    }
}

/// A server without a configuration can only come from an extension.
pub open spec fn provided_by_extension_spec(configuration: Option<ContextServerConfiguration>) -> bool {
    match configuration {
        None => true,
        Some(ContextServerConfiguration::Extension) => true,
        Some(_) => false,
    }
}

/// The server is reached over HTTP.
pub open spec fn is_remote_spec(configuration: Option<ContextServerConfiguration>) -> bool {
    configuration matches Some(ContextServerConfiguration::Http { .. })
}

/// "Log Out" makes sense for a server reached over HTTP whose authorization is
/// not fixed in its headers.
pub open spec fn show_logout_spec(configuration: Option<ContextServerConfiguration>) -> bool {
    configuration matches Some(ContextServerConfiguration::Http { has_static_auth_header }) && !has_static_auth_header
}

/// The tool count text: shown only for a running server.
pub open spec fn tool_label_spec(running: bool, tool_count: nat) -> Option<Seq<char>> {
    if !running {
        None
    } else if tool_count == 1 {
        Some("1 tool"@)
    } else {
        Some(decimal_digits(tool_count) + " tools"@)
    }
}

/// The entries of the configuration menu.
pub open spec fn menu_spec(tool_count: nat, show_logout: bool) -> Seq<MenuEntry> {
    seq![MenuEntry::ConfigureServer] + (if tool_count > 0 {
        seq![MenuEntry::ViewTools]
    } else {
        Seq::empty()
    }) + (if show_logout {
        seq![MenuEntry::LogOut]
    } else {
        Seq::empty()
    }) + seq![MenuEntry::Separator, MenuEntry::Uninstall]
}

/// The name shown for a server: for one provided by an extension, the name of the
/// first installed extension that provides it, without its server suffix; else the id.
pub open spec fn display_name_spec(
    id: Seq<char>,
    configuration: Option<ContextServerConfiguration>,
    installed: Seq<InstalledExtension>,
) -> Seq<char> {
    if provided_by_extension_spec(configuration) {
        match first_provider(installed, id) {
            Some(i) => server_name_spec(installed[i].manifest.name@),
            None => id,
        }
    } else {
        id
    }
}

/// The details line for a status.
pub open spec fn details_match(
    details: Option<ServerDetails>,
    status: ContextServerStatus,
    show_logout: bool,
) -> bool {
    match status {
        ContextServerStatus::Error(message) => details matches Some(ServerDetails::Error { message: m, show_logout: l })
            && m@ == message@ && l == show_logout,
        ContextServerStatus::AuthRequired => details matches Some(ServerDetails::AuthRequired),
        ContextServerStatus::Authenticating => details matches Some(ServerDetails::Authenticating),
        _ => details is None,
    }
}

/// Text options agree with optional texts.
pub open spec fn opt_text(s: Option<String>) -> Option<Seq<char>> {
    match s {
        Some(t) => Some(t@),
        None => None,
    }
}

/// The row describes the server `entry`.
pub open spec fn context_server_row_spec(
    row: ContextServerRow,
    entry: ContextServerEntry,
    installed: Seq<InstalledExtension>,
) -> bool {
    let status = status_or_stopped(entry.status);
    let show_logout = show_logout_spec(entry.configuration);
    let running = status is Running;
    &&& row.item_id@ == entry.id@
    &&& row.display_name@ == display_name_spec(entry.id@, entry.configuration, installed)
    &&& row.status == item_status_spec(status)
    &&& row.source == (if provided_by_extension_spec(entry.configuration) {
        ItemSource::Extension
    } else {
        ItemSource::Custom
    })
    &&& row.switch_on == running
    &&& row.is_remote == is_remote_spec(entry.configuration)
    &&& row.show_logout == show_logout
    &&& opt_text(row.tool_label) == tool_label_spec(running, entry.tool_count as nat)
    &&& details_match(row.details, status, show_logout)
    &&& row.menu@ == menu_spec(entry.tool_count as nat, show_logout)
}

/// Whether a server with this configuration comes from an extension.
pub fn is_provided_by_extension(configuration: &Option<ContextServerConfiguration>) -> (res: bool)
    ensures
        res == provided_by_extension_spec(*configuration),
{
    match configuration {
        None => true,
        Some(ContextServerConfiguration::Extension) => true,
        Some(_) => false,
    }
}

/// Whether a server with this configuration is reached over HTTP.
pub fn is_remote(configuration: &Option<ContextServerConfiguration>) -> (res: bool)
    ensures
        res == is_remote_spec(*configuration),
{
    match configuration {
        Some(ContextServerConfiguration::Http { .. }) => true,
        _ => false,
    }
}

/// Whether the menu of a server with this configuration offers "Log Out".
pub fn should_show_logout_button(configuration: &Option<ContextServerConfiguration>) -> (res: bool)
    ensures
        res == show_logout_spec(*configuration),
{
    match configuration {
        Some(ContextServerConfiguration::Http { has_static_auth_header }) => !*has_static_auth_header,
        _ => false,
    }
}

/// The badge for a status; a missing status counts as stopped.
pub fn item_status(status: &Option<ContextServerStatus>) -> (res: ItemStatus)
    ensures
        res == item_status_spec(status_or_stopped(*status)),
{
    match status {
        Some(ContextServerStatus::Starting) => ItemStatus::Starting,
        Some(ContextServerStatus::Running) => ItemStatus::Running,
        Some(ContextServerStatus::Error(_)) => ItemStatus::Error,
        Some(ContextServerStatus::Stopped) | None => ItemStatus::Stopped,
        Some(ContextServerStatus::AuthRequired) => ItemStatus::AuthRequired,
        Some(ContextServerStatus::Authenticating) => ItemStatus::Authenticating,
    }
}

/// The tool count shown for a server: "1 tool", or the count and " tools", and
/// nothing while the server is not running.
pub fn tool_label(running: bool, tool_count: usize) -> (res: Option<String>)
    ensures
        opt_text(res) == tool_label_spec(running, tool_count as nat),
{
    if !running {
        None
    } else if tool_count == 1 {
        Some("1 tool".to_owned())
    } else {
        let count = decimal_string(tool_count);
        Some(suffixed(count.as_str(), " tools"))
    }
}

/// The entries of a server's configuration menu: "Configure Server", then "View
/// Tools" when it has tools, "Log Out" when that makes sense, a separator and
/// "Uninstall".
pub fn configuration_menu(tool_count: usize, show_logout: bool) -> (res: Vec<MenuEntry>)
    ensures
        res@ == menu_spec(tool_count as nat, show_logout),
{
    let mut menu = Vec::new();
    menu.push(MenuEntry::ConfigureServer);
    if tool_count > 0 {
        menu.push(MenuEntry::ViewTools);
    }
    if show_logout {
        menu.push(MenuEntry::LogOut);
    }
    menu.push(MenuEntry::Separator);
    menu.push(MenuEntry::Uninstall);
    assert(menu@ =~= menu_spec(tool_count as nat, show_logout));
    menu
}

/// The details line for a status.
pub fn server_details(status: &Option<ContextServerStatus>, show_logout: bool) -> (res: Option<ServerDetails>)
    ensures
        details_match(res, status_or_stopped(*status), show_logout),
        res matches Some(ServerDetails::Error { show_logout: l, .. }) ==> l == show_logout,
        res matches Some(ServerDetails::Error { .. }) <==> status matches Some(ContextServerStatus::Error(_)),
{
    match status {
        Some(ContextServerStatus::Error(message)) => Some(
            ServerDetails::Error { message: message.clone(), show_logout },
        ),
        Some(ContextServerStatus::AuthRequired) => Some(ServerDetails::AuthRequired),
        Some(ContextServerStatus::Authenticating) => Some(ServerDetails::Authenticating),
        _ => None,
    }
}

/// The name shown for the server `id`.
pub fn context_server_display_name(
    id: &String,
    configuration: &Option<ContextServerConfiguration>,
    installed: &Vec<InstalledExtension>,
) -> (res: String)
    ensures
        res@ == display_name_spec(id@, *configuration, installed@),
        provided_by_extension_spec(*configuration) && (exists|j: int|
            0 <= j < installed@.len() && provides_server(#[trigger] installed@[j].manifest, id@)) ==> exists|i: int|
            is_first_provider(installed@, id@, i) && res@ == server_name_spec(installed@[i].manifest.name@),
{
    proof {
        lemma_first_provider_is_first(installed@, id@);
    }
    if is_provided_by_extension(configuration) {
        match resolve_extension_for_context_server(id, installed) {
            Some(i) => {
                let name = server_name_from_extension(installed[i].manifest.name.as_str());
                assert(is_first_provider(installed@, id@, i as int));
                name
            },
            None => id.clone(),
        }
    } else {
        id.clone()
    }
}

/// The row of the context-server section for `entry`.
pub fn context_server_row(entry: &ContextServerEntry, installed: &Vec<InstalledExtension>) -> (res:
    ContextServerRow)
    ensures
        context_server_row_spec(res, *entry, installed@),
{
    let running = match &entry.status {
        Some(ContextServerStatus::Running) => true,
        _ => false,
    };
    let show_logout = should_show_logout_button(&entry.configuration);
    let source = if is_provided_by_extension(&entry.configuration) {
        ItemSource::Extension
    } else {
        ItemSource::Custom
    };
    ContextServerRow {
        item_id: entry.id.clone(),
        display_name: context_server_display_name(&entry.id, &entry.configuration, installed),
        status: item_status(&entry.status),
        source,
        switch_on: running,
        is_remote: is_remote(&entry.configuration),
        show_logout,
        tool_label: tool_label(running, entry.tool_count),
        details: server_details(&entry.status, show_logout),
        menu: configuration_menu(entry.tool_count, show_logout),
    }
}

/// The state a switch is left in by a click.
#[derive(Clone, Copy, Debug, PartialEq, Eq, Structural)]
pub enum ToggleState {
    Unselected,
    Indeterminate,
    Selected,
}

/// What the store is asked to do with a server after its switch was clicked.
#[derive(Clone, Copy, Debug, PartialEq, Eq, Structural)]
pub enum ServerCommand {
    Stop,
    Start,
    /// Nothing: the switch was turned on for a server the store does not know.
    Nothing,
}

/// The command for a switch left in `state`.
pub open spec fn switch_command_spec(state: ToggleState, server_known: bool) -> ServerCommand {
    match state {
        ToggleState::Selected => if server_known {
            ServerCommand::Start
        } else {
            ServerCommand::Nothing
        },
        _ => ServerCommand::Stop,
    }
}

/// A click left the switch of the server `id` in `state`: records in the settings
/// whether the server is enabled (on only when selected), and says whether to stop
/// or start it (start only if the store knows the server).
pub fn context_server_switch_toggled(
    settings: &mut Settings,
    id: &String,
    state: ToggleState,
    server_known: bool,
) -> (res: ServerCommand)
    requires
        old(settings).wf(),
    ensures
        res == switch_command_spec(state, server_known),
        final(settings).wf(),
        final(settings).context_servers.view() == context_servers_after_switch(
            old(settings).context_servers.view(),
            id@,
            state == ToggleState::Selected,
        ),
        final(settings).agent_servers == old(settings).agent_servers,
{
    let (enabled, command) = match state {
        ToggleState::Unselected | ToggleState::Indeterminate => (false, ServerCommand::Stop),
        ToggleState::Selected => (true, if server_known {
            ServerCommand::Start
        } else {
            ServerCommand::Nothing
        }),
    };
    settings.set_context_server_enabled(id, enabled);
    command
}

/// A row agrees with itself: the switch is on exactly when the badge says
/// running, which is exactly when a tool count is shown; a details line is shown
/// exactly for a failed server or one that needs or is doing authentication;
/// "Log Out" is offered only for a server reached over HTTP, and the menu always
/// ends with a separator and "Uninstall".
pub proof fn lemma_row_consistency(row: ContextServerRow, entry: ContextServerEntry, installed: Seq<InstalledExtension>)
    requires
        context_server_row_spec(row, entry, installed),
    ensures
        row.switch_on <==> row.status == ItemStatus::Running,
        row.tool_label is Some <==> row.switch_on,
        row.details is Some <==> (row.status == ItemStatus::Error || row.status == ItemStatus::AuthRequired
            || row.status == ItemStatus::Authenticating),
        row.show_logout ==> row.is_remote,
        row.menu@.contains(MenuEntry::LogOut) <==> row.show_logout,
        row.menu@.contains(MenuEntry::ViewTools) <==> entry.tool_count > 0,
        row.menu@.len() >= 3,
        row.menu@[0] == MenuEntry::ConfigureServer,
        row.menu@[row.menu@.len() - 2] == MenuEntry::Separator,
        row.menu@.last() == MenuEntry::Uninstall,
        row.source == ItemSource::Extension <==> provided_by_extension_spec(entry.configuration),
{
    let m = row.menu@;
    if m.contains(MenuEntry::LogOut) {
        let i = choose|i: int| 0 <= i < m.len() && m[i] == MenuEntry::LogOut;
    }
    if row.show_logout {
        if entry.tool_count > 0 {
            assert(m[2] == MenuEntry::LogOut);
        } else {
            assert(m[1] == MenuEntry::LogOut);
        }
    }
    if m.contains(MenuEntry::ViewTools) {
        let i = choose|i: int| 0 <= i < m.len() && m[i] == MenuEntry::ViewTools;
    }
    if entry.tool_count > 0 {
        assert(m[1] == MenuEntry::ViewTools);
    }
}

/// The details line of a failed server offers "Log Out" exactly when the
/// server's settings row does, that is only for a server reached over HTTP whose
/// headers carry no fixed authorization.
pub proof fn lemma_details_logout(details: Option<ServerDetails>, status: ContextServerStatus, show_logout: bool)
    requires
        details_match(details, status, show_logout),
    ensures
        details matches Some(ServerDetails::Error { show_logout: l, .. }) ==> l == show_logout,
        details matches Some(ServerDetails::Error { message, .. }) ==> status matches ContextServerStatus::Error(
            m,
        ) && m@ == message@,
{
}

/// A row offers "Log Out" (in its menu and on its error line) exactly for a
/// server reached over HTTP whose headers carry no fixed authorization.
pub proof fn lemma_row_logout(row: ContextServerRow, entry: ContextServerEntry, installed: Seq<InstalledExtension>)
    requires
        context_server_row_spec(row, entry, installed),
    ensures
        row.show_logout <==> entry.configuration == Some(
            ContextServerConfiguration::Http { has_static_auth_header: false },
        ),
        row.details matches Some(ServerDetails::Error { show_logout: l, .. }) ==> (l <==> entry.configuration
            == Some(ContextServerConfiguration::Http { has_static_auth_header: false })),
{
}

/// The name shown for a server that comes from an extension is taken from an
/// extension that lists the server: the first installed one that does, with its
/// server suffix stripped; a server no extension lists, or one configured by
/// hand or over HTTP, is shown by its id.
pub proof fn lemma_display_name_from_provider(
    id: Seq<char>,
    configuration: Option<ContextServerConfiguration>,
    installed: Seq<InstalledExtension>,
)
    ensures
        !provided_by_extension_spec(configuration) ==> display_name_spec(id, configuration, installed) == id,
        provided_by_extension_spec(configuration) && (forall|j: int|
            0 <= j < installed.len() ==> !provides_server(#[trigger] installed[j].manifest, id))
            ==> display_name_spec(id, configuration, installed) == id,
        provided_by_extension_spec(configuration) && (exists|j: int|
            0 <= j < installed.len() && provides_server(#[trigger] installed[j].manifest, id)) ==> exists|i: int|
            {
                &&& 0 <= i < installed.len()
                &&& provides_server(installed[i].manifest, id)
                &&& forall|j: int| 0 <= j < i ==> !provides_server(#[trigger] installed[j].manifest, id)
                &&& display_name_spec(id, configuration, installed) == server_name_spec(installed[i].manifest.name@)
            },
        configuration is None ==> provided_by_extension_spec(configuration),
        configuration == Some(ContextServerConfiguration::Extension) ==> provided_by_extension_spec(configuration),
        configuration == Some(ContextServerConfiguration::Custom) ==> !provided_by_extension_spec(configuration),
        (configuration matches Some(ContextServerConfiguration::Http { .. })) ==> !provided_by_extension_spec(
            configuration,
        ),
{
    lemma_first_provider_is_first(installed, id);
    if provided_by_extension_spec(configuration) && (exists|j: int|
        0 <= j < installed.len() && provides_server(#[trigger] installed[j].manifest, id)) {
        let i = first_provider(installed, id)->0;
        assert(is_first_provider(installed, id, i));
    }
}

/// A row's badge follows the server's reported status (a server with none
/// counts as stopped), and the tool count it shows is the count in decimal
/// followed by " tool" for one tool and " tools" otherwise.
pub proof fn lemma_row_status_and_tools(
    row: ContextServerRow,
    entry: ContextServerEntry,
    installed: Seq<InstalledExtension>,
)
    requires
        context_server_row_spec(row, entry, installed),
    ensures
        row.status == ItemStatus::Running <==> entry.status matches Some(ContextServerStatus::Running),
        row.status == ItemStatus::Starting <==> entry.status matches Some(ContextServerStatus::Starting),
        row.status == ItemStatus::Error <==> entry.status matches Some(ContextServerStatus::Error(_)),
        row.status == ItemStatus::AuthRequired <==> entry.status matches Some(ContextServerStatus::AuthRequired),
        row.status == ItemStatus::Authenticating <==> entry.status matches Some(
            ContextServerStatus::Authenticating,
        ),
        row.status == ItemStatus::Stopped <==> (entry.status is None || entry.status matches Some(
            ContextServerStatus::Stopped,
        )),
        row.tool_label matches Some(label) ==> label@ == decimal_digits(entry.tool_count as nat) + (if entry.tool_count
            == 1 {
            " tool"@
        } else {
            " tools"@
        }),
{
    if row.tool_label is Some && entry.tool_count == 1 {
        reveal_strlit("1 tool");
        reveal_strlit(" tool");
        assert(decimal_digits(1) =~= seq!['1']);
        assert("1 tool"@ =~= decimal_digits(1) + " tool"@);
    }
}

/// A switch click asks the store to start the server only when the switch was
/// turned on and the store knows the server, to stop it exactly when the switch
/// was turned off (or left undecided), and records the server as enabled
/// exactly when it was turned on.
pub proof fn lemma_switch_command(state: ToggleState, server_known: bool)
    ensures
        switch_command_spec(state, server_known) == ServerCommand::Start <==> (state == ToggleState::Selected
            && server_known),
        switch_command_spec(state, server_known) == ServerCommand::Stop <==> state != ToggleState::Selected,
        switch_command_spec(state, server_known) == ServerCommand::Nothing <==> (state == ToggleState::Selected
            && !server_known),
{
}

} // verus!

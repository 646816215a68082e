//! Installed extensions as the panel sees them: which context servers each one
//! provides, whether it provides anything else, and what removing a server that
//! came from an extension does.

use vstd::prelude::*;

use crate::text::{prefixed, strip_suffix, strip_suffix_spec, suffixed};

verus! {

/// What the panel reads of an extension's manifest: its name, the ids of the
/// context servers it provides (each listed once), and how many of each other
/// kind of contribution it makes.
pub struct ExtensionManifest {
    pub name: String,
    pub context_servers: Vec<String>,
    pub themes: usize,
    pub icon_themes: usize,
    pub languages: usize,
    pub grammars: usize,
    pub language_servers: usize,
    pub slash_commands: usize,
    pub has_snippets: bool,
    pub debug_locators: usize,
}

/// An installed extension: its id and its manifest.
pub struct InstalledExtension {
    pub id: String,
    pub manifest: ExtensionManifest,
}

/// The ids of the context servers that a manifest provides.
pub open spec fn server_ids(m: ExtensionManifest) -> Seq<Seq<char>> {
    m.context_servers@.map_values(|s: String| s@)
}

/// The manifest provides the context server `id`.
pub open spec fn provides_server(m: ExtensionManifest, id: Seq<char>) -> bool {
    server_ids(m).contains(id)
}

/// The extension contributes one context server and nothing else.
pub open spec fn only_provides_context_server_spec(m: ExtensionManifest) -> bool {
    &&& m.context_servers@.len() == 1
    &&& m.themes == 0
    &&& m.icon_themes == 0
    &&& m.languages == 0
    &&& m.grammars == 0
    &&& m.language_servers == 0
    &&& m.slash_commands == 0
    &&& !m.has_snippets
    &&& m.debug_locators == 0
}

/// Whether the extension contributes one context server and nothing else, so that
/// uninstalling it takes nothing but that server away.
pub fn extension_only_provides_context_server(manifest: &ExtensionManifest) -> (res: bool)
    ensures
        res == only_provides_context_server_spec(*manifest),
        res <==> (manifest.context_servers@.len() == 1 && manifest.themes == 0 && manifest.icon_themes == 0
            && manifest.languages == 0 && manifest.grammars == 0 && manifest.language_servers == 0
            && manifest.slash_commands == 0 && !manifest.has_snippets && manifest.debug_locators == 0),
{
    manifest.context_servers.len() == 1 && manifest.themes == 0 && manifest.icon_themes == 0
        && manifest.languages == 0 && manifest.grammars == 0 && manifest.language_servers == 0
        && manifest.slash_commands == 0 && !manifest.has_snippets && manifest.debug_locators == 0
}

/// Whether the manifest provides the context server `id`.
pub fn manifest_provides_server(manifest: &ExtensionManifest, id: &String) -> (res: bool)
    ensures
        res == provides_server(*manifest, id@),
{
    let mut i: usize = 0;
    while i < manifest.context_servers.len()
        invariant
            i <= manifest.context_servers@.len(),
            forall|j: int| 0 <= j < i ==> manifest.context_servers@[j]@ != id@,
        decreases manifest.context_servers@.len() - i,
    {
        if manifest.context_servers[i] == *id {
            assert(server_ids(*manifest)[i as int] == id@);
            return true;
        }
        i = i + 1;
    }
    proof {
        if server_ids(*manifest).contains(id@) {
            let j = choose|j: int| 0 <= j < server_ids(*manifest).len() && server_ids(*manifest)[j] == id@;
            assert(manifest.context_servers@[j]@ != id@);
        }
    }
    false
}

/// The extension at `i` is the first, in the order given, that provides `id`.
pub open spec fn is_first_provider(installed: Seq<InstalledExtension>, id: Seq<char>, i: int) -> bool {
    &&& 0 <= i < installed.len()
    &&& provides_server(installed[i].manifest, id)
    &&& forall|j: int| 0 <= j < i ==> !provides_server(#[trigger] installed[j].manifest, id)
}

/// The first installed extension, in the order given, that provides `id`.
pub open spec fn first_provider(installed: Seq<InstalledExtension>, id: Seq<char>) -> Option<int> {
    if exists|i: int| 0 <= i < installed.len() && provides_server(installed[i].manifest, id) {
        Some(choose|i: int| is_first_provider(installed, id, i))
    } else {
        None
    }
}

/// The position of the first installed extension, in the order the extension
/// store lists them, whose manifest provides the context server `id`.
pub fn resolve_extension_for_context_server(id: &String, installed: &Vec<InstalledExtension>) -> (res: Option<
    usize,
>)
    ensures
        match res {
            Some(i) => {
                &&& i < installed@.len()
                &&& provides_server(installed@[i as int].manifest, id@)
                &&& forall|j: int| 0 <= j < i ==> !provides_server(#[trigger] installed@[j].manifest, id@)
            },
            None => forall|j: int|
                0 <= j < installed@.len() ==> !provides_server(#[trigger] installed@[j].manifest, id@),
        },
        res matches Some(i) ==> first_provider(installed@, id@) == Some(i as int),
        res is None <==> first_provider(installed@, id@) is None,
{
    let mut i: usize = 0;
    while i < installed.len()
        invariant
            i <= installed@.len(),
            forall|j: int| 0 <= j < i ==> !provides_server(#[trigger] installed@[j].manifest, id@),
        decreases installed@.len() - i,
    {
        if manifest_provides_server(&installed[i].manifest, id) {
            proof {
                assert(is_first_provider(installed@, id@, i as int));
                let c = choose|k: int| is_first_provider(installed@, id@, k);
                if c < i {
                    assert(!provides_server(installed@[c].manifest, id@));
                } else if c > i {
                    assert(!provides_server(installed@[i as int].manifest, id@));
                }
            }
            return Some(i);
        }
        i = i + 1;
    }
    None
}

/// A context server's name as the extension calls it, without a trailing
/// " MCP Server", " MCP" or " Context Server" (tried in that order).
pub open spec fn server_name_spec(name: Seq<char>) -> Seq<char> {
    match strip_suffix_spec(name, " MCP Server"@) {
        Some(s) => s,
        None => match strip_suffix_spec(name, " MCP"@) {
            Some(s) => s,
            None => match strip_suffix_spec(name, " Context Server"@) {
                Some(s) => s,
                None => name,
            },
        },
    }
}

/// The name to show for a server provided by an extension called `name`.
pub fn server_name_from_extension(name: &str) -> (res: String)
    ensures
        res@ == server_name_spec(name@),
{
    match strip_suffix(name, " MCP Server") {
        Some(s) => s,
        None => match strip_suffix(name, " MCP") {
            Some(s) => s,
            None => match strip_suffix(name, " Context Server") {
                Some(s) => s,
                None => name.to_owned(),
            },
        },
    }
}

/// What the "Uninstall" entry of a context server's menu does to extensions,
/// before it removes the server from the settings.
#[derive(Debug)]
pub enum ContextServerUninstall {
    /// Uninstall the extension with this id, which provides only this server.
    UninstallExtension(String),
    /// Warn that the extension provides more than this server, and ask.
    WarnExtensionProvidesMore,
    /// Leave extensions alone.
    KeepExtensions,
}

/// The plan for uninstalling the context server `id`: when the server comes from
/// an extension that provides nothing else, uninstall that extension; when it
/// comes from one that provides more, ask first; otherwise touch no extension.
pub fn context_server_uninstall_plan(
    id: &String,
    provided_by_extension: bool,
    installed: &Vec<InstalledExtension>,
) -> (res: ContextServerUninstall)
    ensures
        match res {
            ContextServerUninstall::UninstallExtension(ext) => {
                &&& provided_by_extension
                &&& first_provider(installed@, id@) matches Some(i)
                &&& only_provides_context_server_spec(installed@[i].manifest)
                &&& ext@ == installed@[i].id@
                &&& is_first_provider(installed@, id@, i)
                &&& installed@[i].manifest.context_servers@.len() == 1
                &&& installed@[i].manifest.themes == 0
                &&& installed@[i].manifest.icon_themes == 0
                &&& installed@[i].manifest.languages == 0
                &&& installed@[i].manifest.grammars == 0
                &&& installed@[i].manifest.language_servers == 0
                &&& installed@[i].manifest.slash_commands == 0
                &&& !installed@[i].manifest.has_snippets
                &&& installed@[i].manifest.debug_locators == 0
            },
            ContextServerUninstall::WarnExtensionProvidesMore => {
                &&& provided_by_extension
                &&& first_provider(installed@, id@) matches Some(i)
                &&& !only_provides_context_server_spec(installed@[i].manifest)
                &&& is_first_provider(installed@, id@, i)
            },
            ContextServerUninstall::KeepExtensions => !provided_by_extension || first_provider(
                installed@,
                id@,
            ) is None,
        },
{
    proof {
        lemma_first_provider_is_first(installed@, id@);
    }
    if !provided_by_extension {
        return ContextServerUninstall::KeepExtensions;
    }
    match resolve_extension_for_context_server(id, installed) {
        Some(i) => {
            if extension_only_provides_context_server(&installed[i].manifest) {
                ContextServerUninstall::UninstallExtension(installed[i].id.clone())
            } else {
                ContextServerUninstall::WarnExtensionProvidesMore
            }
        },
        None => ContextServerUninstall::KeepExtensions,
    }
}

/// The warning shown when the extension behind the server `id` provides more
/// than that server.
pub open spec fn uninstall_warning_spec(id: Seq<char>) -> Seq<char> {
    "The "@ + id + " extension provides more than just the MCP server. Proceed to uninstall anyway?"@
}

/// The text of the warning shown when the extension behind the server `id`
/// provides more than that server.
pub fn uninstall_warning_message(id: &String) -> (res: String)
    ensures
        res@ == uninstall_warning_spec(id@),
{
    let head = prefixed("The ", id.as_str());
    let res = suffixed(head.as_str(), " extension provides more than just the MCP server. Proceed to uninstall anyway?");
    res
}

/// Stripping takes at most one known suffix away: the shown name followed by
/// one of " MCP Server", " MCP" or " Context Server" gives the extension's name
/// back, or the shown name is the extension's name itself.
pub proof fn lemma_server_name_suffix(name: Seq<char>)
    ensures
        server_name_spec(name) == name || server_name_spec(name) + " MCP Server"@ == name
            || server_name_spec(name) + " MCP"@ == name || server_name_spec(name) + " Context Server"@ == name,
        server_name_spec(name).len() <= name.len(),
{
    let suffixes = seq![" MCP Server"@, " MCP"@, " Context Server"@];
    assert forall|k: int| 0 <= k < 3 implies (strip_suffix_spec(name, #[trigger] suffixes[k]) matches Some(s) ==> s
        + suffixes[k] == name) by {
        let suf = suffixes[k];
        if let Some(s) = strip_suffix_spec(name, suf) {
            assert(s + suf =~= name);
        }
    }
    assert(suffixes[0] == " MCP Server"@);
    assert(suffixes[1] == " MCP"@);
    assert(suffixes[2] == " Context Server"@);
}

/// Some provider at or before `k` is the first one.
proof fn lemma_first_provider_exists(installed: Seq<InstalledExtension>, id: Seq<char>, k: int)
    requires
        0 <= k < installed.len(),
        provides_server(installed[k].manifest, id),
    ensures
        exists|i: int| is_first_provider(installed, id, i),
    decreases k,
{
    if exists|j: int| 0 <= j < k && provides_server(#[trigger] installed[j].manifest, id) {
        let j = choose|j: int| 0 <= j < k && provides_server(#[trigger] installed[j].manifest, id);
        lemma_first_provider_exists(installed, id, j);
    } else {
        assert(is_first_provider(installed, id, k));
    }
}

/// `first_provider` finds an extension that provides the server and has no
/// providing extension before it, and finds none exactly when no extension
/// provides the server.
pub proof fn lemma_first_provider_is_first(installed: Seq<InstalledExtension>, id: Seq<char>)
    ensures
        first_provider(installed, id) matches Some(i) ==> {
            &&& 0 <= i < installed.len()
            &&& provides_server(installed[i].manifest, id)
            &&& forall|j: int| 0 <= j < i ==> !provides_server(#[trigger] installed[j].manifest, id)
        },
        first_provider(installed, id) is None <==> forall|j: int|
            0 <= j < installed.len() ==> !provides_server(#[trigger] installed[j].manifest, id),
{
    if exists|k: int| 0 <= k < installed.len() && provides_server(installed[k].manifest, id) {
        let k = choose|k: int| 0 <= k < installed.len() && provides_server(installed[k].manifest, id);
        lemma_first_provider_exists(installed, id, k);
    }
}

/// Uninstalling a server takes its extension away only when that extension
/// contributes nothing but the server: it lists exactly one context server, the
/// one being uninstalled, and no theme, icon theme, language, grammar, language
/// server, slash command, snippets or debug locator.
pub proof fn lemma_uninstalled_extension_provides_nothing_else(
    installed: Seq<InstalledExtension>,
    id: Seq<char>,
    i: int,
)
    requires
        first_provider(installed, id) == Some(i),
        only_provides_context_server_spec(installed[i].manifest),
    ensures
        0 <= i < installed.len(),
        server_ids(installed[i].manifest) == seq![id],
        installed[i].manifest.themes == 0,
        installed[i].manifest.icon_themes == 0,
        installed[i].manifest.languages == 0,
        installed[i].manifest.grammars == 0,
        installed[i].manifest.language_servers == 0,
        installed[i].manifest.slash_commands == 0,
        !installed[i].manifest.has_snippets,
        installed[i].manifest.debug_locators == 0,
{
    lemma_first_provider_is_first(installed, id);
    let ids = server_ids(installed[i].manifest);
    let k = choose|k: int| 0 <= k < ids.len() && ids[k] == id;
    assert(ids =~= seq![id]);
}

/// An extension that contributes anything besides exactly one context server
/// (another server, a theme, an icon theme, a language, a grammar, a language
/// server, a slash command, snippets or a debug locator) is not uninstalled
/// without asking.
pub proof fn lemma_extension_with_more_is_not_lone(m: ExtensionManifest)
    requires
        m.context_servers@.len() != 1 || m.themes > 0 || m.icon_themes > 0 || m.languages > 0 || m.grammars > 0
            || m.language_servers > 0 || m.slash_commands > 0 || m.has_snippets || m.debug_locators > 0,
    ensures
        !only_provides_context_server_spec(m),
{
}

} // verus!

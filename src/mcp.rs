//! MCP service: shared server definitions with per-application enablement.
use vstd::prelude::*;
use crate::model::{AppError, AppState, AppType, McpServer, MultiAppConfig, enabled_for, find_server,
    has_server_id, is_not_found, server_ids_unique, with_enabled};
use crate::live::{lemma_projection_idempotent, project, projection};
use crate::render::{block_text, render_block};

verus! {

/// Only the server list changed between the two stores.
pub open spec fn sections_unchanged(a: MultiAppConfig, b: MultiAppConfig) -> bool {
    &&& b.claude == a.claude
    &&& b.codex == a.codex
    &&& b.gemini == a.gemini
}

/// `s` with its enablement for `app` set to `on`.
pub open spec fn toggled(s: McpServer, app: AppType, on: bool) -> McpServer {
    McpServer { apps: with_enabled(s.apps, app, on), ..s }
}

/// `n` is `o` without the element `s`.
pub open spec fn removed_at(o: Seq<McpServer>, n: Seq<McpServer>, s: McpServer) -> bool {
    exists|i: int| 0 <= i < o.len() && #[trigger] o[i] == s && n == o.remove(i)
}

/// `n` is `o` with server `id` turned on or off for `app`.
pub open spec fn toggled_at(o: Seq<McpServer>, n: Seq<McpServer>, id: Seq<char>, app: AppType, on: bool) -> bool {
    exists|i: int| 0 <= i < o.len() && #[trigger] o[i].id@ == id && n == o.update(i, toggled(o[i], app, on))
}

/// `n` is `o` with `server` in place of the definition of the same
/// identifier, or with `server` added at the end when there is none.
pub open spec fn upserted(o: Seq<McpServer>, n: Seq<McpServer>, server: McpServer) -> bool {
    if has_server_id(o, server.id@) {
        exists|i: int| 0 <= i < o.len() && #[trigger] o[i].id@ == server.id@ && n == o.update(i, server)
    } else {
        n == o.push(server)
    }
}

/// The live file contents of the three applications.
#[derive(Clone, Debug)]
pub struct LiveFiles {
    pub claude: String,
    pub codex: String,
    pub gemini: String,
}

impl LiveFiles {
    pub open spec fn file(&self, app: AppType) -> String {
        match app {
            AppType::Claude => self.claude,
            AppType::Codex => self.codex,
            AppType::Gemini => self.gemini,
        }
    }
}

/// Each file of `n` is the file of `o` with the block of `cfg` for its
/// application projected into it.
pub open spec fn synced(cfg: MultiAppConfig, o: LiveFiles, n: LiveFiles) -> bool {
    forall|app: AppType| #[trigger] projection(o.file(app)@, block_text(cfg, app)) == Some(n.file(app)@)
}

/// Every file of `o` takes the block of `cfg` for its application.
pub open spec fn syncable(cfg: MultiAppConfig, o: LiveFiles) -> bool {
    forall|app: AppType| #[trigger] projection(o.file(app)@, block_text(cfg, app)) is Some
}

/// `r` is a projection failure naming `app`.
pub open spec fn is_projection_error<T>(r: Result<T, AppError>, app: AppType) -> bool {
    match r {
        Err(AppError::Projection(a, _)) => a == app,
        _ => false,
    }
}

/// Syncing twice with no change to the store in between: the second sync
/// succeeds and leaves every live file as the first sync wrote it.
pub proof fn lemma_sync_idempotent(cfg: MultiAppConfig, files: LiveFiles, once: LiveFiles)
    requires
        synced(cfg, files, once),
    ensures
        syncable(cfg, once),
        synced(cfg, once, once),
        forall|twice: LiveFiles| synced(cfg, once, twice) ==> forall|app: AppType| #[trigger] twice.file(app)@ == once.file(app)@,
{
    assert forall|app: AppType| #[trigger] projection(once.file(app)@, block_text(cfg, app)) == Some(once.file(app)@) by {
        assert(projection(files.file(app)@, block_text(cfg, app)) == Some(once.file(app)@));
        lemma_projection_idempotent(files.file(app)@, block_text(cfg, app));
    }
    assert forall|twice: LiveFiles| synced(cfg, once, twice) implies forall|app: AppType| #[trigger] twice.file(app)@ == once.file(app)@ by {
        assert forall|app: AppType| #[trigger] twice.file(app)@ == once.file(app)@ by {
            assert(projection(once.file(app)@, block_text(cfg, app)) == Some(twice.file(app)@));
        }
    }
}

/// The live file `existing` of `app` with the store's block for `app`
/// projected into it; a projection failure naming `app` when the block
/// holds a closing marker or the file opens a block it never closes.
pub fn sync_app(state: &AppState, app: AppType, existing: &str) -> (r: Result<String, AppError>)
    ensures
        match r {
            Ok(t) => projection(existing@, block_text(state.config, app)) == Some(t@),
            Err(_) => projection(existing@, block_text(state.config, app)) is None && is_projection_error(r, app),
        },
{
    let block = render_block(&state.config, app);
    match project(existing, block.as_str()) {
        Some(t) => Ok(t),
        None => Err(AppError::Projection(app, "the live file has an unclosed block, or a payload holds the closing marker".to_owned())),
    }
}

/// MCP server operations on the shared state. Edits change the store
/// only; live files follow on the next sync.
pub struct McpService;

impl McpService {
    /// Every server definition, whatever application it is enabled for.
    pub fn get_all_servers(state: &AppState) -> (r: &Vec<McpServer>)
        ensures
            r@ == state.config.mcp_servers@,
    {
        &state.config.mcp_servers
    }

    /// Projects, for every application, the servers enabled for it (with
    /// the rest of its block) into its live file, replacing what an earlier
    /// projection wrote there. Fails, naming the application, when one of
    /// the files cannot take its block; then no file is produced.
    pub fn sync_all_enabled(state: &AppState, files: &LiveFiles) -> (r: Result<LiveFiles, AppError>)
        ensures
            r is Ok <==> syncable(state.config, *files),
            r matches Ok(n) ==> synced(state.config, *files, n),
            r is Err ==> exists|app: AppType| #[trigger] is_projection_error(r, app)
                && projection(files.file(app)@, block_text(state.config, app)) is None,
    {
        let claude = match sync_app(state, AppType::Claude, files.claude.as_str()) {
            Ok(t) => t,
            Err(e) => {
                proof {
                    assert(is_projection_error(Err::<LiveFiles, AppError>(e), AppType::Claude));
                    assert(projection(files.file(AppType::Claude)@, block_text(state.config, AppType::Claude)) is None);
                }
                return Err(e);
            },
        };
        let codex = match sync_app(state, AppType::Codex, files.codex.as_str()) {
            Ok(t) => t,
            Err(e) => {
                proof {
                    assert(is_projection_error(Err::<LiveFiles, AppError>(e), AppType::Codex));
                    assert(projection(files.file(AppType::Codex)@, block_text(state.config, AppType::Codex)) is None);
                }
                return Err(e);
            },
        };
        let gemini = match sync_app(state, AppType::Gemini, files.gemini.as_str()) {
            Ok(t) => t,
            Err(e) => {
                proof {
                    assert(is_projection_error(Err::<LiveFiles, AppError>(e), AppType::Gemini));
                    assert(projection(files.file(AppType::Gemini)@, block_text(state.config, AppType::Gemini)) is None);
                }
                return Err(e);
            },
        };
        let r = LiveFiles { claude, codex, gemini };
        assert forall|app: AppType| #[trigger] projection(files.file(app)@, block_text(state.config, app)) == Some(r.file(app)@) by {
            match app {
                AppType::Claude => {},
                AppType::Codex => {},
                AppType::Gemini => {},
            }
        }
        Ok(r)
    }

    /// Adds `server`, or replaces the definition with the same identifier.
    pub fn upsert_server(state: &mut AppState, server: McpServer)
        ensures
            sections_unchanged(old(state).config, final(state).config),
            upserted(old(state).config.mcp_servers@, final(state).config.mcp_servers@, server),
            server_ids_unique(old(state).config.mcp_servers@)
                ==> server_ids_unique(final(state).config.mcp_servers@),
    {
        let ghost o = state.config.mcp_servers@;
        match find_server(&state.config.mcp_servers, server.id.as_str()) {
            Some(i) => {
                state.config.mcp_servers.remove(i);
                state.config.mcp_servers.insert(i, server);
                proof {
                    let n = state.config.mcp_servers@;
                    assert(n =~= o.update(i as int, server));
                    assert(o[i as int].id@ == server.id@ && n == o.update(i as int, server));
                    assert forall|a: int, b: int| 0 <= a < n.len() && 0 <= b < n.len() && a != b
                        && server_ids_unique(o) implies #[trigger] n[a].id@ != #[trigger] n[b].id@ by {
                        assert(n[a].id@ == o[a].id@ && n[b].id@ == o[b].id@);
                    }
                }
            },
            None => {
                state.config.mcp_servers.push(server);
                proof {
                    let n = state.config.mcp_servers@;
                    assert forall|a: int, b: int| 0 <= a < n.len() && 0 <= b < n.len() && a != b
                        && server_ids_unique(o) implies #[trigger] n[a].id@ != #[trigger] n[b].id@ by {
                        if a < o.len() && b < o.len() {
                            assert(n[a] == o[a] && n[b] == o[b]);
                        } else if a < o.len() {
                            assert(n[a] == o[a]);
                        } else {
                            assert(n[b] == o[b]);
                        }
                    }
                }
            },
        }
    }

    /// Removes the definition `id`; `NotFound` when there is none.
    pub fn delete_server(state: &mut AppState, id: &str) -> (r: Result<McpServer, AppError>)
        ensures
            sections_unchanged(old(state).config, final(state).config),
            r is Ok <==> has_server_id(old(state).config.mcp_servers@, id@),
            r is Err ==> is_not_found(r, id@) && final(state).config == old(state).config,
            r matches Ok(s) ==> s.id@ == id@ && removed_at(old(state).config.mcp_servers@,
                final(state).config.mcp_servers@, s),
            server_ids_unique(old(state).config.mcp_servers@)
                ==> server_ids_unique(final(state).config.mcp_servers@),
    {
        match find_server(&state.config.mcp_servers, id) {
            None => Err(AppError::NotFound(id.to_owned())),
            Some(i) => {
                let ghost o = state.config.mcp_servers@;
                let s = state.config.mcp_servers.remove(i);
                proof {
                    let n = state.config.mcp_servers@;
                    assert(n =~= o.remove(i as int));
                    assert(0 <= i < o.len() && o[i as int] == s && n == o.remove(i as int));
                    assert forall|a: int, b: int| 0 <= a < n.len() && 0 <= b < n.len() && a != b
                        && server_ids_unique(o) implies #[trigger] n[a].id@ != #[trigger] n[b].id@ by {
                        assert(n[a] == o[if a < i { a } else { a + 1 }]);
                        assert(n[b] == o[if b < i { b } else { b + 1 }]);
                    }
                }
                Ok(s)
            },
        }
    }

    /// Turns server `id` on or off for `app`; `NotFound` when there is none.
    pub fn set_enabled(state: &mut AppState, id: &str, app: AppType, on: bool) -> (r: Result<(), AppError>)
        ensures
            sections_unchanged(old(state).config, final(state).config),
            r is Ok <==> has_server_id(old(state).config.mcp_servers@, id@),
            r is Err ==> is_not_found(r, id@) && final(state).config == old(state).config,
            r is Ok ==> toggled_at(old(state).config.mcp_servers@, final(state).config.mcp_servers@,
                id@, app, on),
            server_ids_unique(old(state).config.mcp_servers@)
                ==> server_ids_unique(final(state).config.mcp_servers@),
    {
        match find_server(&state.config.mcp_servers, id) {
            None => Err(AppError::NotFound(id.to_owned())),
            Some(i) => {
                let ghost o = state.config.mcp_servers@;
                let mut s = state.config.mcp_servers.remove(i);
                s.apps.set_enabled(app, on);
                state.config.mcp_servers.insert(i, s);
                proof {
                    let n = state.config.mcp_servers@;
                    assert(n =~= o.update(i as int, toggled(o[i as int], app, on)));
                    assert(o[i as int].id@ == id@ && n == o.update(i as int, toggled(o[i as int], app, on)));
                    assert forall|a: int, b: int| 0 <= a < n.len() && 0 <= b < n.len() && a != b
                        && server_ids_unique(o) implies #[trigger] n[a].id@ != #[trigger] n[b].id@ by {
                        assert(n[a].id@ == o[a].id@ && n[b].id@ == o[b].id@);
                    }
                }
                Ok(())
            },
        }
    }
}

} // verus!

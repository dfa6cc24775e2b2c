//! The entity store: target applications, providers, MCP server
//! definitions, prompts, and the aggregate that holds them.
use vstd::prelude::*;

verus! {

/// One of the supported client applications.
#[derive(Clone, Copy, Debug, PartialEq, Eq, Structural)]
pub enum AppType {
    Claude,
    Codex,
    Gemini,
}

/// A backend endpoint profile for one application.
#[derive(Clone, Debug)]
pub struct Provider {
    pub id: String,
    pub name: String,
    pub category: Option<String>,
    /// Application-specific settings, kept as opaque text.
    pub settings: String,
    pub created_at: Option<i64>,
    pub sort_index: Option<u64>,
}

/// Per-application enablement of an MCP server.
#[derive(Clone, Copy, Debug, PartialEq, Eq, Structural)]
pub struct McpApps {
    pub claude: bool,
    pub codex: bool,
    pub gemini: bool,
}

pub open spec fn enabled_for(apps: McpApps, app: AppType) -> bool {
    match app {
        AppType::Claude => apps.claude,
        AppType::Codex => apps.codex,
        AppType::Gemini => apps.gemini,
    }
}

pub open spec fn with_enabled(apps: McpApps, app: AppType, on: bool) -> McpApps {
    match app {
        AppType::Claude => McpApps { claude: on, ..apps },
        AppType::Codex => McpApps { codex: on, ..apps },
        AppType::Gemini => McpApps { gemini: on, ..apps },
    }
}

impl McpApps {
    pub fn none() -> (r: McpApps)
        ensures
            forall|app: AppType| !enabled_for(r, app),
    {
        McpApps { claude: false, codex: false, gemini: false }
    }

    pub fn is_enabled_for(&self, app: AppType) -> (r: bool)
        ensures
            r == enabled_for(*self, app),
    {
        match app {
            AppType::Claude => self.claude,
            AppType::Codex => self.codex,
            AppType::Gemini => self.gemini,
        }
    }

    pub fn set_enabled(&mut self, app: AppType, on: bool)
        ensures
            *final(self) == with_enabled(*old(self), app, on),
    {
        match app {
            AppType::Claude => self.claude = on,
            AppType::Codex => self.codex = on,
            AppType::Gemini => self.gemini = on,
        }
    }
}

/// A Model-Context-Protocol server definition shared by all applications.
#[derive(Clone, Debug)]
pub struct McpServer {
    pub id: String,
    pub name: String,
    /// Connection settings, kept as opaque text.
    pub server: String,
    pub apps: McpApps,
}

/// A reusable system-prompt preset of one application.
#[derive(Clone, Debug)]
pub struct Prompt {
    pub id: String,
    pub name: String,
    pub content: String,
    pub description: Option<String>,
    pub enabled: bool,
    pub updated_at: Option<i64>,
}

/// What the store holds for one application.
#[derive(Clone, Debug)]
pub struct AppConfig {
    pub providers: Vec<Provider>,
    pub current: String,
    pub prompts: Vec<Prompt>,
}

/// The unified store of all applications.
#[derive(Clone, Debug)]
pub struct MultiAppConfig {
    pub claude: AppConfig,
    pub codex: AppConfig,
    pub gemini: AppConfig,
    pub mcp_servers: Vec<McpServer>,
}

/// The context handed to every service call; it owns one store.
#[derive(Clone, Debug)]
pub struct AppState {
    pub config: MultiAppConfig,
}

/// The failures a service call reports.
#[derive(Clone, Debug)]
pub enum AppError {
    /// The persisted store could not be read.
    ConfigLoad(String),
    /// A referenced identifier is absent.
    NotFound(String),
    /// The operation would break an invariant of the store.
    InvalidOperation(String),
    /// The live file of the named application could not be written.
    Projection(AppType, String),
    /// The store could not be written back after a change.
    Storage(String),
}

/// `r` is a `NotFound` failure naming `id`.
pub open spec fn is_not_found<T>(r: Result<T, AppError>, id: Seq<char>) -> bool {
    match r {
        Err(AppError::NotFound(m)) => m@ == id,
        _ => false,
    }
}

pub open spec fn is_invalid_operation<T>(r: Result<T, AppError>) -> bool {
    r matches Err(AppError::InvalidOperation(_))
}

pub open spec fn has_provider_id(ps: Seq<Provider>, id: Seq<char>) -> bool {
    exists|i: int| 0 <= i < ps.len() && #[trigger] ps[i].id@ == id
}

pub open spec fn has_prompt_id(ps: Seq<Prompt>, id: Seq<char>) -> bool {
    exists|i: int| 0 <= i < ps.len() && #[trigger] ps[i].id@ == id
}

pub open spec fn has_server_id(ss: Seq<McpServer>, id: Seq<char>) -> bool {
    exists|i: int| 0 <= i < ss.len() && #[trigger] ss[i].id@ == id
}

pub open spec fn provider_ids_unique(ps: Seq<Provider>) -> bool {
    forall|i: int, j: int| 0 <= i < ps.len() && 0 <= j < ps.len() && i != j
        ==> #[trigger] ps[i].id@ != #[trigger] ps[j].id@
}

pub open spec fn prompt_ids_unique(ps: Seq<Prompt>) -> bool {
    forall|i: int, j: int| 0 <= i < ps.len() && 0 <= j < ps.len() && i != j
        ==> #[trigger] ps[i].id@ != #[trigger] ps[j].id@
}

pub open spec fn server_ids_unique(ss: Seq<McpServer>) -> bool {
    forall|i: int, j: int| 0 <= i < ss.len() && 0 <= j < ss.len() && i != j
        ==> #[trigger] ss[i].id@ != #[trigger] ss[j].id@
}

/// No two prompts of one application are enabled at once.
pub open spec fn at_most_one_enabled(ps: Seq<Prompt>) -> bool {
    forall|i: int, j: int| 0 <= i < ps.len() && 0 <= j < ps.len() && #[trigger] ps[i].enabled
        && #[trigger] ps[j].enabled ==> i == j
}

impl AppConfig {
    /// Identifiers are unique and at most one prompt is active.
    pub open spec fn wf(&self) -> bool {
        &&& provider_ids_unique(self.providers@)
        &&& prompt_ids_unique(self.prompts@)
        &&& at_most_one_enabled(self.prompts@)
    }

    /// The current provider is one of the providers.
    pub open spec fn current_valid(&self) -> bool {
        has_provider_id(self.providers@, self.current@)
    }
}

impl MultiAppConfig {
    pub open spec fn section(&self, app: AppType) -> AppConfig {
        match app {
            AppType::Claude => self.claude,
            AppType::Codex => self.codex,
            AppType::Gemini => self.gemini,
        }
    }

    /// The same store with the section of `app` replaced.
    pub open spec fn with_section(&self, app: AppType, sec: AppConfig) -> MultiAppConfig {
        match app {
            AppType::Claude => MultiAppConfig { claude: sec, ..*self },
            AppType::Codex => MultiAppConfig { codex: sec, ..*self },
            AppType::Gemini => MultiAppConfig { gemini: sec, ..*self },
        }
    }

    pub open spec fn wf(&self) -> bool {
        &&& self.claude.wf()
        &&& self.codex.wf()
        &&& self.gemini.wf()
        &&& server_ids_unique(self.mcp_servers@)
    }

    pub fn section_ref(&self, app: AppType) -> (r: &AppConfig)
        ensures
            *r == self.section(app),
    {
        match app {
            AppType::Claude => &self.claude,
            AppType::Codex => &self.codex,
            AppType::Gemini => &self.gemini,
        }
    }
}

/// An entry of the store that carries an identifier.
pub trait Identified {
    spec fn ident(&self) -> Seq<char>;

    fn ident_ref(&self) -> (r: &String)
        ensures
            r@ == self.ident(),
    ;
}

impl Identified for Provider {
    open spec fn ident(&self) -> Seq<char> {
        self.id@
    }

    fn ident_ref(&self) -> (r: &String) {
        &self.id
    }
}

impl Identified for Prompt {
    open spec fn ident(&self) -> Seq<char> {
        self.id@
    }

    fn ident_ref(&self) -> (r: &String) {
        &self.id
    }
}

impl Identified for McpServer {
    open spec fn ident(&self) -> Seq<char> {
        self.id@
    }

    fn ident_ref(&self) -> (r: &String) {
        &self.id
    }
}

/// The first position of an entry with identifier `id`, if any.
pub fn find_by_id<T: Identified>(v: &Vec<T>, id: &str) -> (r: Option<usize>)
    ensures
        match r {
            Some(i) => i < v@.len() && v@[i as int].ident() == id@
                && forall|j: int| 0 <= j < i ==> #[trigger] v@[j].ident() != id@,
            None => forall|j: int| 0 <= j < v@.len() ==> #[trigger] v@[j].ident() != id@,
        },
{
    let key = id.to_owned();
    let mut i: usize = 0;
    while i < v.len()
        invariant
            key@ == id@,
            i <= v@.len(),
            forall|j: int| 0 <= j < i ==> #[trigger] v@[j].ident() != id@,
        decreases v@.len() - i,
    {
        if *v[i].ident_ref() == key {
            return Some(i);
        }
        i += 1;
    }
    None
}

/// Whether no two entries of `v` share an identifier.
pub fn ids_distinct<T: Identified>(v: &Vec<T>) -> (r: bool)
    ensures
        r == forall|a: int, b: int| 0 <= a < v@.len() && 0 <= b < v@.len() && a != b
            ==> #[trigger] v@[a].ident() != #[trigger] v@[b].ident(),
{
    let mut i: usize = 0;
    while i < v.len()
        invariant
            i <= v@.len(),
            forall|a: int, b: int| 0 <= a < i && 0 <= b < v@.len() && a != b ==> #[trigger] v@[a].ident() != #[trigger] v@[b].ident(),
        decreases v@.len() - i,
    {
        let mut j: usize = i + 1;
        while j < v.len()
            invariant
                i < v@.len(),
                i + 1 <= j <= v@.len(),
                forall|a: int, b: int| 0 <= a < i && 0 <= b < v@.len() && a != b ==> #[trigger] v@[a].ident() != #[trigger] v@[b].ident(),
                forall|b: int| i < b < j ==> v@[i as int].ident() != #[trigger] v@[b].ident(),
            decreases v@.len() - j,
        {
            if *v[i].ident_ref() == *v[j].ident_ref() {
                return false;
            }
            j += 1;
        }
        i += 1;
    }
    true
}

/// Position of the provider with identifier `id`, if any.
pub fn find_provider(ps: &Vec<Provider>, id: &str) -> (r: Option<usize>)
    ensures
        match r {
            Some(i) => i < ps@.len() && ps@[i as int].id@ == id@,
            None => !has_provider_id(ps@, id@),
        },
{
    let r = find_by_id(ps, id);
    proof {
        assert forall|j: int| 0 <= j < ps@.len() implies #[trigger] ps@[j].id@ == ps@[j].ident() by {}
    }
    r
}

/// Position of the first prompt with identifier `id`, if any.
pub fn find_prompt(ps: &Vec<Prompt>, id: &str) -> (r: Option<usize>)
    ensures
        match r {
            Some(i) => i < ps@.len() && ps@[i as int].id@ == id@
                && forall|j: int| 0 <= j < i ==> #[trigger] ps@[j].id@ != id@,
            None => !has_prompt_id(ps@, id@),
        },
{
    let r = find_by_id(ps, id);
    proof {
        assert forall|j: int| 0 <= j < ps@.len() implies #[trigger] ps@[j].id@ == ps@[j].ident() by {}
    }
    r
}

/// Position of the MCP server with identifier `id`, if any.
pub fn find_server(ss: &Vec<McpServer>, id: &str) -> (r: Option<usize>)
    ensures
        match r {
            Some(i) => i < ss@.len() && ss@[i as int].id@ == id@,
            None => !has_server_id(ss@, id@),
        },
{
    let r = find_by_id(ss, id);
    proof {
        assert forall|j: int| 0 <= j < ss@.len() implies #[trigger] ss@[j].id@ == ss@[j].ident() by {}
    }
    r
}

} // verus!

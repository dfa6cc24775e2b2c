//! Provider commands.
use vstd::prelude::*;
use crate::commands::env::target_app;
use crate::listing::{listing_row, provider_table_rows};
use crate::model::{AppConfig, AppError, AppState, AppType, find_provider, has_provider_id, is_invalid_operation,
    is_not_found};
use crate::order::{is_permutation, provider_le};
use crate::provider::{ProviderService, others_unchanged};
use crate::ui::{category_label, category_text, created_label, created_text, second_pattern};

verus! {

/// The provider commands.
pub enum ProviderCommand {
    /// List all providers.
    List,
    /// Show the current provider.
    Current,
    /// Switch to a provider.
    Switch { id: String },
    /// Add a new provider (interactive).
    Add,
    /// Edit a provider.
    Edit { id: String },
    /// Delete a provider.
    Delete { id: String },
    /// Duplicate a provider.
    Duplicate { id: String },
    /// Test a provider endpoint's speed.
    Speedtest { id: String },
}

/// What a provider command reports for display.
pub enum ProviderReport {
    /// The application has no providers.
    NoProviders { app: AppType },
    /// The provider table, in display order.
    Table { app: AppType, rows: Vec<Vec<String>>, current: String },
    /// The current provider.
    Details { app: AppType, id: String, name: String, category: String, created: String },
    /// The current provider is now `id`; `previous` was current before.
    Switched { app: AppType, id: String, previous: String },
    /// Provider `id` may be deleted once the user confirms.
    ConfirmDelete { app: AppType, id: String },
    /// Provider `id` was deleted.
    Deleted { app: AppType, id: String },
    /// Interactive creation is not offered yet.
    AddPending,
    /// An action that is not offered yet, with the provider it named.
    Pending { action: String, id: String },
}

/// The outcome of listing the providers of section `o` of `app`.
pub open spec fn listed(o: AppConfig, app: AppType, r: Result<ProviderReport, AppError>) -> bool {
    &&& (o.providers@.len() == 0 <==> r matches Ok(ProviderReport::NoProviders { .. }))
    &&& o.providers@.len() > 0 ==> (r is Ok <==> o.current_valid())
    &&& match r {
        Err(e) => e matches AppError::NotFound(_),
        Ok(ProviderReport::NoProviders { app: ra }) => ra == app,
        Ok(ProviderReport::Table { app: ra, rows, current }) => {
            &&& ra == app
            &&& current@ == o.current@
            &&& rows@.len() == o.providers@.len()
            &&& exists|ord: Seq<usize>|
                {
                    &&& is_permutation(ord, o.providers@.len())
                    &&& forall|i: int, j: int| 0 <= i < j < ord.len() ==> provider_le(o.providers@[#[trigger] ord[i] as int], o.providers@[#[trigger] ord[j] as int])
                    &&& forall|k: int| 0 <= k < rows@.len() ==> listing_row(#[trigger] rows@[k]@, o.providers@[ord[k] as int], o.current@)
                }
        },
        _ => false,
    }
}

/// The outcome of showing the current provider of section `o` of `app`.
pub open spec fn described(o: AppConfig, app: AppType, r: Result<ProviderReport, AppError>) -> bool {
    &&& r is Ok <==> o.current_valid()
    &&& match r {
        Err(e) => e matches AppError::NotFound(_),
        Ok(ProviderReport::Details { app: ra, id, name, category, created }) => {
            &&& ra == app
            &&& id@ == o.current@
            &&& exists|i: int| 0 <= i < o.providers@.len() && #[trigger] o.providers@[i].id@ == o.current@
                && name@ == o.providers@[i].name@ && category@ == category_text(o.providers@[i])
                && created_text(created@, o.providers@[i].created_at, second_pattern())
        },
        _ => false,
    }
}

/// The outcome of switching section `o` of `app` to `id`, leaving `n`.
pub open spec fn switched_to(o: AppConfig, n: AppConfig, app: AppType, id: Seq<char>, r: Result<ProviderReport, AppError>) -> bool {
    &&& r is Ok <==> has_provider_id(o.providers@, id)
    &&& match r {
        Err(_) => is_not_found(r, id) && n == o,
        Ok(ProviderReport::Switched { app: ra, id: rid, previous }) => {
            &&& ra == app
            &&& rid@ == id
            &&& previous@ == o.current@
            &&& n.current@ == id
            &&& n.providers == o.providers
            &&& n.prompts == o.prompts
        },
        _ => false,
    }
}

/// The outcome of deleting `id` from section `o` of `app`, leaving `n`.
pub open spec fn deleted(o: AppConfig, n: AppConfig, app: AppType, id: Seq<char>, confirmed: bool, r: Result<ProviderReport, AppError>) -> bool {
    &&& r is Ok <==> (o.current_valid() && id != o.current@ && has_provider_id(o.providers@, id))
    &&& id == o.current@ ==> is_invalid_operation(r)
    &&& (!confirmed || r is Err) ==> n == o
    &&& match r {
        Err(_) => true,
        Ok(ProviderReport::ConfirmDelete { app: ra, id: rid }) => !confirmed && ra == app && rid@ == id,
        Ok(ProviderReport::Deleted { app: ra, id: rid }) => {
            &&& confirmed
            &&& ra == app
            &&& rid@ == id
            &&& exists|i: int| 0 <= i < o.providers@.len() && #[trigger] o.providers@[i].id@ == id
                && n.providers@ == o.providers@.remove(i)
            &&& n.current == o.current
            &&& n.prompts == o.prompts
        },
        _ => false,
    }
}

pub open spec fn pending(r: Result<ProviderReport, AppError>, id: Seq<char>) -> bool {
    match r {
        Ok(ProviderReport::Pending { id: rid, .. }) => rid@ == id,
        _ => false,
    }
}

/// Asking the delete command to delete the current provider always fails
/// with `InvalidOperation`, confirmed or not, and leaves the store as it was.
pub proof fn lemma_delete_command_refuses_current(o: AppConfig, n: AppConfig, app: AppType, confirmed: bool,
    r: Result<ProviderReport, AppError>)
    requires
        deleted(o, n, app, o.current@, confirmed, r),
    ensures
        is_invalid_operation(r),
        n == o,
{
}

/// Runs a provider command for `app` (the default one when none is named). A
/// deletion happens only when `confirmed`; unconfirmed, it is checked and
/// answered with `ConfirmDelete`.
pub fn execute(cmd: ProviderCommand, app: Option<AppType>, state: &mut AppState, confirmed: bool)
    -> (r: Result<ProviderReport, AppError>)
    ensures
        ({
            let a = match app {
                Some(x) => x,
                None => AppType::Claude,
            };
            let (o, n) = (old(state).config.section(a), final(state).config.section(a));
            &&& others_unchanged(old(state).config, final(state).config, a)
            &&& match cmd {
                ProviderCommand::List => final(state).config == old(state).config && listed(o, a, r),
                ProviderCommand::Current => final(state).config == old(state).config && described(o, a, r),
                ProviderCommand::Switch { id } => switched_to(o, n, a, id@, r),
                ProviderCommand::Delete { id } => deleted(o, n, a, id@, confirmed, r),
                ProviderCommand::Add => final(state).config == old(state).config
                    && r matches Ok(ProviderReport::AddPending),
                ProviderCommand::Edit { id } => final(state).config == old(state).config && pending(r, id@),
                ProviderCommand::Duplicate { id } => final(state).config == old(state).config && pending(r, id@),
                ProviderCommand::Speedtest { id } => final(state).config == old(state).config && pending(r, id@),
            }
        }),
{
    let app_type = target_app(app);
    match cmd {
        ProviderCommand::List => list_providers(state, app_type),
        ProviderCommand::Current => show_current(state, app_type),
        ProviderCommand::Switch { id } => {
            let previous = ProviderService::switch(state, app_type, id.as_str())?;
            Ok(ProviderReport::Switched { app: app_type, id, previous })
        },
        ProviderCommand::Delete { id } => delete_provider(state, app_type, id, confirmed),
        ProviderCommand::Add => Ok(ProviderReport::AddPending),
        ProviderCommand::Edit { id } => Ok(ProviderReport::Pending { action: "Editing".to_owned(), id }),
        ProviderCommand::Duplicate { id } => Ok(ProviderReport::Pending { action: "Duplicating".to_owned(), id }),
        ProviderCommand::Speedtest { id } => Ok(ProviderReport::Pending { action: "Testing".to_owned(), id }),
    }
}

fn list_providers(state: &AppState, app: AppType) -> (r: Result<ProviderReport, AppError>)
    ensures
        listed(state.config.section(app), app, r),
{
    let providers = ProviderService::list(state, app);
    if providers.len() == 0 {
        return Ok(ProviderReport::NoProviders { app });
    }
    let current = ProviderService::current(state, app)?;
    let rows = provider_table_rows(providers, current.as_str());
    Ok(ProviderReport::Table { app, rows, current })
}

fn show_current(state: &AppState, app: AppType) -> (r: Result<ProviderReport, AppError>)
    ensures
        described(state.config.section(app), app, r),
{
    let current = ProviderService::current(state, app)?;
    let providers = ProviderService::list(state, app);
    match find_provider(providers, current.as_str()) {
        None => Err(AppError::NotFound(current)),
        Some(i) => {
            let p = &providers[i];
            Ok(ProviderReport::Details {
                app,
                id: current,
                name: p.name.clone(),
                category: category_label(p),
                created: created_label(p.created_at, true),
            })
        },
    }
}

fn delete_provider(state: &mut AppState, app: AppType, id: String, confirmed: bool)
    -> (r: Result<ProviderReport, AppError>)
    ensures
        others_unchanged(old(state).config, final(state).config, app),
        deleted(old(state).config.section(app), final(state).config.section(app), app, id@, confirmed, r),
{
    if id == state.config.section_ref(app).current {
        return Err(
            AppError::InvalidOperation(
                "cannot delete the current provider; switch to another one first".to_owned(),
            ),
        );
    }
    ProviderService::current(state, app)?;
    if !confirmed {
        return match find_provider(ProviderService::list(state, app), id.as_str()) {
            None => Err(AppError::NotFound(id)),
            Some(_) => Ok(ProviderReport::ConfirmDelete { app, id }),
        };
    }
    let removed = ProviderService::delete(state, app, id.as_str())?;
    Ok(ProviderReport::Deleted { app, id: removed.id })
}

} // verus!

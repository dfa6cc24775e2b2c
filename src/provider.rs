//! Provider service: listing, the current provider, switching and deletion.
use vstd::prelude::*;
use crate::model::{AppConfig, AppError, AppState, AppType, MultiAppConfig, Provider, find_provider,
    has_provider_id, is_invalid_operation, is_not_found};

verus! {

/// The two stores agree everywhere but in the section of `app`.
pub open spec fn others_unchanged(a: MultiAppConfig, b: MultiAppConfig, app: AppType) -> bool {
    &&& b.mcp_servers == a.mcp_servers
    &&& forall|o: AppType| o != app ==> #[trigger] b.section(o) == a.section(o)
}

/// What switching section `o` to provider `id` may produce: `n` and `r`.
pub open spec fn switch_outcome(o: AppConfig, n: AppConfig, id: Seq<char>, r: Result<String, AppError>) -> bool {
    &&& has_provider_id(o.providers@, id) <==> r is Ok
    &&& match r {
        Ok(prev) => {
            &&& prev@ == o.current@
            &&& n.current@ == id
            &&& n.providers == o.providers
            &&& n.prompts == o.prompts
        },
        Err(_) => is_not_found(r, id) && n == o,
    }
}

/// What removing provider `id` from section `o` may produce: `n` and `r`.
pub open spec fn removal_outcome(o: AppConfig, n: AppConfig, id: Seq<char>, r: Result<Provider, AppError>) -> bool {
    &&& r is Ok <==> (id != o.current@ && has_provider_id(o.providers@, id))
    &&& id == o.current@ ==> is_invalid_operation(r)
    &&& (id != o.current@ && !has_provider_id(o.providers@, id)) ==> is_not_found(r, id)
    &&& r is Err ==> n == o
    &&& match r {
        Ok(p) => {
            &&& p.id@ == id
            &&& exists|i: int| 0 <= i < o.providers@.len() && #[trigger] o.providers@[i] == p
                && n.providers@ == o.providers@.remove(i)
            &&& n.current == o.current
            &&& n.prompts == o.prompts
        },
        Err(_) => true,
    }
}

/// After a successful switch to `id`, `id` is the current provider and is
/// one of the listed providers, so asking for the current provider
/// succeeds with `id`.
pub proof fn lemma_switch_makes_current(o: AppConfig, n: AppConfig, id: Seq<char>, r: Result<String, AppError>)
    requires
        switch_outcome(o, n, id, r),
        r is Ok,
    ensures
        n.current@ == id,
        has_provider_id(n.providers@, id),
        n.current_valid(),
{
}

/// A switch to an identifier that is not listed fails with `NotFound`
/// and leaves the current provider as it was.
pub proof fn lemma_switch_to_absent_fails(o: AppConfig, n: AppConfig, id: Seq<char>, r: Result<String, AppError>)
    requires
        switch_outcome(o, n, id, r),
        !has_provider_id(o.providers@, id),
    ensures
        is_not_found(r, id),
        n.current == o.current,
{
}

/// Deleting the current provider always fails with `InvalidOperation`
/// and changes neither the current provider nor the provider set.
pub proof fn lemma_delete_current_refused(o: AppConfig, n: AppConfig, r: Result<Provider, AppError>)
    requires
        removal_outcome(o, n, o.current@, r),
    ensures
        is_invalid_operation(r),
        n.current == o.current,
        n.providers == o.providers,
{
}

impl AppConfig {
    /// Makes `id` the current provider and hands back the one it replaces.
    pub fn switch_to(&mut self, id: &str) -> (r: Result<String, AppError>)
        ensures
            switch_outcome(*old(self), *final(self), id@, r),
    {
        match find_provider(&self.providers, id) {
            None => Err(AppError::NotFound(id.to_owned())),
            Some(_) => {
                let mut prev = id.to_owned();
                std::mem::swap(&mut self.current, &mut prev);
                Ok(prev)
            },
        }
    }

    /// Puts back a current provider that a failed switch replaced.
    pub fn restore_current(&mut self, prev: String)
        ensures
            final(self).current == prev,
            final(self).providers == old(self).providers,
            final(self).prompts == old(self).prompts,
    {
        self.current = prev;
    }

    /// Removes provider `id`, which must not be the current one.
    pub fn remove_provider(&mut self, id: &str) -> (r: Result<Provider, AppError>)
        ensures
            removal_outcome(*old(self), *final(self), id@, r),
            old(self).wf() ==> final(self).wf(),
            old(self).current_valid() ==> final(self).current_valid(),
    {
        let key = id.to_owned();
        if key == self.current {
            return Err(
                AppError::InvalidOperation(
                    "cannot delete the current provider; switch to another one first".to_owned(),
                ),
            );
        }
        match find_provider(&self.providers, id) {
            None => Err(AppError::NotFound(key)),
            Some(i) => {
                let ghost before = self.providers@;
                let p = self.providers.remove(i);
                proof {
                    let after = self.providers@;
                    assert(forall|j: int| 0 <= j < after.len() ==> #[trigger] after[j] == before[if j < i { j } else { j + 1 }]);
                    if has_provider_id(before, self.current@) {
                        let k = choose|k: int| 0 <= k < before.len() && #[trigger] before[k].id@ == self.current@;
                        assert(k != i);
                        let k2 = if k < i { k } else { k - 1 };
                        assert(after[k2].id@ == self.current@);
                    }
                }
                Ok(p)
            },
        }
    }
}

/// Provider operations on the shared state.
pub struct ProviderService;

impl ProviderService {
    /// All providers of `app`, in the order the store keeps them.
    pub fn list(state: &AppState, app: AppType) -> (r: &Vec<Provider>)
        ensures
            r@ == state.config.section(app).providers@,
    {
        &state.config.section_ref(app).providers
    }

    /// The identifier of the current provider of `app`; `NotFound` when
    /// the store names a provider it does not hold.
    pub fn current(state: &AppState, app: AppType) -> (r: Result<String, AppError>)
        ensures
            r is Ok <==> state.config.section(app).current_valid(),
            r matches Ok(s) ==> s@ == state.config.section(app).current@,
            r matches Err(e) ==> e matches AppError::NotFound(_),
    {
        let sec = state.config.section_ref(app);
        match find_provider(&sec.providers, sec.current.as_str()) {
            Some(_) => Ok(sec.current.clone()),
            None => Err(AppError::NotFound(sec.current.clone())),
        }
    }

    /// Makes `id` the current provider of `app`. On success the previous
    /// current identifier comes back, so that the caller can put it back
    /// with `restore` when persisting or projecting fails.
    pub fn switch(state: &mut AppState, app: AppType, id: &str) -> (r: Result<String, AppError>)
        ensures
            switch_outcome(old(state).config.section(app), final(state).config.section(app), id@, r),
            others_unchanged(old(state).config, final(state).config, app),
            r is Err ==> final(state).config == old(state).config,
    {
        match app {
            AppType::Claude => state.config.claude.switch_to(id),
            AppType::Codex => state.config.codex.switch_to(id),
            AppType::Gemini => state.config.gemini.switch_to(id),
        }
    }

    /// Puts back the current provider `prev` of `app` after a failed switch.
    pub fn restore(state: &mut AppState, app: AppType, prev: String)
        ensures
            others_unchanged(old(state).config, final(state).config, app),
            final(state).config.section(app).current == prev,
            final(state).config.section(app).providers == old(state).config.section(app).providers,
            final(state).config.section(app).prompts == old(state).config.section(app).prompts,
    {
        match app {
            AppType::Claude => state.config.claude.restore_current(prev),
            AppType::Codex => state.config.codex.restore_current(prev),
            AppType::Gemini => state.config.gemini.restore_current(prev),
        }
    }

    /// Settles a switch of `app` once the caller knows whether persisting
    /// the store and projecting the live file both succeeded: a committed
    /// switch stays, otherwise the previous provider `previous` is put back,
    /// so a switch is all or nothing.
    pub fn settle_switch(state: &mut AppState, app: AppType, previous: String, committed: bool)
        ensures
            committed ==> final(state).config == old(state).config,
            !committed ==> {
                &&& others_unchanged(old(state).config, final(state).config, app)
                &&& final(state).config.section(app).current == previous
                &&& final(state).config.section(app).providers == old(state).config.section(app).providers
                &&& final(state).config.section(app).prompts == old(state).config.section(app).prompts
            },
    {
        if !committed {
            ProviderService::restore(state, app, previous);
        }
    }

    /// Deletes provider `id` of `app`. Deleting the current provider is an
    /// `InvalidOperation`; an absent identifier is `NotFound`.
    pub fn delete(state: &mut AppState, app: AppType, id: &str) -> (r: Result<Provider, AppError>)
        ensures
            removal_outcome(old(state).config.section(app), final(state).config.section(app), id@, r),
            old(state).config.section(app).wf() ==> final(state).config.section(app).wf(),
            old(state).config.section(app).current_valid() ==> final(state).config.section(app).current_valid(),
            others_unchanged(old(state).config, final(state).config, app),
            r is Err ==> final(state).config == old(state).config,
    {
        match app {
            AppType::Claude => state.config.claude.remove_provider(id),
            AppType::Codex => state.config.codex.remove_provider(id),
            AppType::Gemini => state.config.gemini.remove_provider(id),
        }
    }
}

} // verus!

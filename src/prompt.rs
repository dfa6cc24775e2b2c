//! Prompt service: presets per application, with one active preset at most.
use vstd::prelude::*;
use crate::model::{AppConfig, AppError, AppState, AppType, Prompt, at_most_one_enabled, find_prompt,
    has_prompt_id, is_not_found, prompt_ids_unique};
use crate::provider::others_unchanged;
use crate::live::projection;
use crate::mcp::{is_projection_error, sync_app};
use crate::render::block_text;

verus! {

/// `p` with its enabled flag set to `on`.
pub open spec fn flagged(p: Prompt, on: bool) -> Prompt {
    Prompt { enabled: on, ..p }
}

/// `k` is the first position of a prompt named `id`.
pub open spec fn first_prompt_at(ps: Seq<Prompt>, id: Seq<char>, k: int) -> bool {
    &&& 0 <= k < ps.len()
    &&& ps[k].id@ == id
    &&& forall|j: int| 0 <= j < k ==> #[trigger] ps[j].id@ != id
}

/// `n` is `o` with only the prompt at position `k` enabled and every other
/// field kept.
pub open spec fn enabled_only_at(o: Seq<Prompt>, n: Seq<Prompt>, k: int) -> bool {
    &&& n.len() == o.len()
    &&& forall|i: int| 0 <= i < o.len() ==> #[trigger] n[i] == flagged(o[i], i == k)
}

/// `n` is `o` with exactly the first prompt named `id` enabled (with
/// unique identifiers: the prompt named `id`) and every other field kept.
pub open spec fn exclusively_enabled(o: Seq<Prompt>, n: Seq<Prompt>, id: Seq<char>) -> bool {
    exists|k: int| #[trigger] first_prompt_at(o, id, k) && enabled_only_at(o, n, k)
}

proof fn lemma_first_prompt_unique(ps: Seq<Prompt>, id: Seq<char>, a: int, b: int)
    requires
        first_prompt_at(ps, id, a),
        first_prompt_at(ps, id, b),
    ensures
        a == b,
{
    if a < b {
        assert(ps[a].id@ != id);
    } else if b < a {
        assert(ps[b].id@ != id);
    }
}

/// After enabling a prompt, exactly one prompt is enabled, and it carries
/// the identifier asked for; identifiers stay as they were.
pub proof fn lemma_exclusive_enable_keeps_one(o: Seq<Prompt>, n: Seq<Prompt>, id: Seq<char>)
    requires
        exclusively_enabled(o, n, id),
    ensures
        at_most_one_enabled(n),
        exists|i: int| 0 <= i < n.len() && #[trigger] n[i].enabled && n[i].id@ == id,
        prompt_ids_unique(o) ==> prompt_ids_unique(n),
        has_prompt_id(n, id),
{
    let k = choose|k: int| #[trigger] first_prompt_at(o, id, k) && enabled_only_at(o, n, k);
    assert forall|i: int, j: int| 0 <= i < n.len() && 0 <= j < n.len() && #[trigger] n[i].enabled
        && #[trigger] n[j].enabled implies i == j by {
        assert(n[i] == flagged(o[i], i == k));
        assert(n[j] == flagged(o[j], j == k));
    }
    if prompt_ids_unique(o) {
        assert forall|i: int, j: int| 0 <= i < n.len() && 0 <= j < n.len() && i != j
            implies #[trigger] n[i].id@ != #[trigger] n[j].id@ by {
            assert(n[i] == flagged(o[i], i == k));
            assert(n[j] == flagged(o[j], j == k));
        }
    }
    assert(n[k] == flagged(o[k], true));
    assert(n[k].enabled && n[k].id@ == id);
}

/// Enabling the same prompt a second time changes nothing: the only
/// outcome the second call admits is the state the first one left, and
/// the prompt is still there, so it does not fail.
pub proof fn lemma_enable_prompt_idempotent(o: Seq<Prompt>, n: Seq<Prompt>, n2: Seq<Prompt>, id: Seq<char>)
    requires
        exclusively_enabled(o, n, id),
        exclusively_enabled(n, n2, id),
    ensures
        n2 == n,
        has_prompt_id(n, id),
{
    let k = choose|k: int| #[trigger] first_prompt_at(o, id, k) && enabled_only_at(o, n, k);
    let k2 = choose|k: int| #[trigger] first_prompt_at(n, id, k) && enabled_only_at(n, n2, k);
    assert forall|j: int| 0 <= j < n.len() implies #[trigger] n[j].id@ == o[j].id@ by {
        assert(n[j] == flagged(o[j], j == k));
    }
    assert(first_prompt_at(n, id, k));
    lemma_first_prompt_unique(n, id, k, k2);
    assert forall|i: int| 0 <= i < n.len() implies #[trigger] n2[i] == n[i] by {
        assert(n[i] == flagged(o[i], i == k));
        assert(n2[i] == flagged(n[i], i == k));
    }
    assert(n2 =~= n);
    lemma_exclusive_enable_keeps_one(o, n, id);
}

/// `n` is `o` with `p` in place of the prompt of the same identifier,
/// whose enabled flag it takes over, or with `p` added, disabled, at the end.
pub open spec fn prompt_upserted(o: Seq<Prompt>, n: Seq<Prompt>, p: Prompt) -> bool {
    if has_prompt_id(o, p.id@) {
        exists|i: int| 0 <= i < o.len() && #[trigger] o[i].id@ == p.id@ && n == o.update(i, flagged(p, o[i].enabled))
    } else {
        n == o.push(flagged(p, false))
    }
}

/// `n` is `o` without the element `p`.
pub open spec fn prompt_removed(o: Seq<Prompt>, n: Seq<Prompt>, p: Prompt) -> bool {
    exists|i: int| 0 <= i < o.len() && #[trigger] o[i] == p && n == o.remove(i)
}

impl AppConfig {
    /// Adds prompt `p`, or replaces the prompt with the same identifier.
    /// Whether a prompt is active is left to `enable_prompt`: a replacement
    /// keeps the flag of the prompt it replaces, a new prompt starts disabled.
    pub fn upsert_prompt(&mut self, p: Prompt)
        ensures
            prompt_upserted(old(self).prompts@, final(self).prompts@, p),
            final(self).providers == old(self).providers,
            final(self).current == old(self).current,
            old(self).wf() ==> final(self).wf(),
    {
        let ghost o = self.prompts@;
        let mut p = p;
        let ghost p0 = p;
        match find_prompt(&self.prompts, p.id.as_str()) {
            Some(i) => {
                let prev = self.prompts.remove(i);
                p.enabled = prev.enabled;
                self.prompts.insert(i, p);
                proof {
                    let n = self.prompts@;
                    assert(n =~= o.update(i as int, flagged(p0, o[i as int].enabled)));
                    assert(o[i as int].id@ == p0.id@);
                    assert forall|a: int, b: int| 0 <= a < n.len() && 0 <= b < n.len() && a != b
                        && prompt_ids_unique(o) implies #[trigger] n[a].id@ != #[trigger] n[b].id@ by {
                        assert(n[a].id@ == o[a].id@ && n[b].id@ == o[b].id@);
                    }
                    assert forall|a: int, b: int| 0 <= a < n.len() && 0 <= b < n.len() && #[trigger] n[a].enabled
                        && #[trigger] n[b].enabled && at_most_one_enabled(o) implies a == b by {
                        assert(n[a].enabled == o[a].enabled && n[b].enabled == o[b].enabled);
                    }
                }
            },
            None => {
                p.enabled = false;
                self.prompts.push(p);
                proof {
                    let n = self.prompts@;
                    assert(n =~= o.push(flagged(p0, false)));
                    assert forall|a: int, b: int| 0 <= a < n.len() && 0 <= b < n.len() && a != b
                        && prompt_ids_unique(o) implies #[trigger] n[a].id@ != #[trigger] n[b].id@ by {
                        if a < o.len() && b < o.len() {
                            assert(n[a] == o[a] && n[b] == o[b]);
                        } else if a < o.len() {
                            assert(n[a] == o[a]);
                        } else {
                            assert(n[b] == o[b]);
                        }
                    }
                    assert forall|a: int, b: int| 0 <= a < n.len() && 0 <= b < n.len() && #[trigger] n[a].enabled
                        && #[trigger] n[b].enabled && at_most_one_enabled(o) implies a == b by {
                        if a < o.len() {
                            assert(n[a] == o[a]);
                        }
                        if b < o.len() {
                            assert(n[b] == o[b]);
                        }
                    }
                }
            },
        }
    }

    /// Removes prompt `id`; `NotFound` when there is none.
    pub fn remove_prompt(&mut self, id: &str) -> (r: Result<Prompt, AppError>)
        ensures
            r is Ok <==> has_prompt_id(old(self).prompts@, id@),
            r is Err ==> is_not_found(r, id@) && *final(self) == *old(self),
            r matches Ok(p) ==> p.id@ == id@ && prompt_removed(old(self).prompts@, final(self).prompts@, p),
            final(self).providers == old(self).providers,
            final(self).current == old(self).current,
            old(self).wf() ==> final(self).wf(),
    {
        match find_prompt(&self.prompts, id) {
            None => Err(AppError::NotFound(id.to_owned())),
            Some(i) => {
                let ghost o = self.prompts@;
                let p = self.prompts.remove(i);
                proof {
                    let n = self.prompts@;
                    assert(n =~= o.remove(i as int));
                    assert(0 <= i < o.len() && o[i as int] == p && n == o.remove(i as int));
                    assert forall|a: int, b: int| 0 <= a < n.len() && 0 <= b < n.len() && a != b
                        && prompt_ids_unique(o) implies #[trigger] n[a].id@ != #[trigger] n[b].id@ by {
                        assert(n[a] == o[if a < i { a } else { a + 1 }]);
                        assert(n[b] == o[if b < i { b } else { b + 1 }]);
                    }
                    assert forall|a: int, b: int| 0 <= a < n.len() && 0 <= b < n.len() && #[trigger] n[a].enabled
                        && #[trigger] n[b].enabled && at_most_one_enabled(o) implies a == b by {
                        assert(n[a] == o[if a < i { a } else { a + 1 }]);
                        assert(n[b] == o[if b < i { b } else { b + 1 }]);
                    }
                }
                Ok(p)
            },
        }
    }

    /// Enables the first prompt named `id` (the only one in a well-formed
    /// store) and disables every other prompt.
    pub fn enable_prompt(&mut self, id: &str) -> (r: Result<(), AppError>)
        ensures
            r is Ok <==> has_prompt_id(old(self).prompts@, id@),
            r is Err ==> is_not_found(r, id@) && *final(self) == *old(self),
            r is Ok ==> {
                &&& exclusively_enabled(old(self).prompts@, final(self).prompts@, id@)
                &&& at_most_one_enabled(final(self).prompts@)
                &&& final(self).providers == old(self).providers
                &&& final(self).current == old(self).current
            },
            at_most_one_enabled(old(self).prompts@) ==> at_most_one_enabled(final(self).prompts@),
            old(self).wf() ==> final(self).wf(),
    {
        let k = match find_prompt(&self.prompts, id) {
            None => {
                return Err(AppError::NotFound(id.to_owned()));
            },
            Some(k) => k,
        };
        let ghost before = self.prompts@;
        let mut i: usize = 0;
        while i < self.prompts.len()
            invariant
                self.prompts@.len() == before.len(),
                i <= before.len(),
                self.providers == old(self).providers,
                self.current == old(self).current,
                before == old(self).prompts@,
                first_prompt_at(before, id@, k as int),
                forall|j: int| 0 <= j < i ==> #[trigger] self.prompts@[j] == flagged(before[j], j == k),
                forall|j: int| i <= j < before.len() ==> #[trigger] self.prompts@[j] == before[j],
            decreases before.len() - i,
        {
            let mut p = self.prompts.remove(i);
            p.enabled = i == k;
            self.prompts.insert(i, p);
            i += 1;
        }
        proof {
            assert(enabled_only_at(before, self.prompts@, k as int));
            assert(exclusively_enabled(before, self.prompts@, id@));
            lemma_exclusive_enable_keeps_one(before, self.prompts@, id@);
        }
        Ok(())
    }
}

/// Prompt operations on the shared state.
pub struct PromptService;

impl PromptService {
    /// All prompt presets of `app`.
    pub fn get_prompts(state: &AppState, app: AppType) -> (r: &Vec<Prompt>)
        ensures
            r@ == state.config.section(app).prompts@,
    {
        &state.config.section_ref(app).prompts
    }

    /// Adds prompt `p` to `app`, or replaces the one with its identifier;
    /// see `AppConfig::upsert_prompt` for the enabled flag.
    pub fn upsert_prompt(state: &mut AppState, app: AppType, p: Prompt)
        ensures
            ({
                let (o, n) = (old(state).config.section(app), final(state).config.section(app));
                &&& prompt_upserted(o.prompts@, n.prompts@, p)
                &&& n.providers == o.providers
                &&& n.current == o.current
                &&& o.wf() ==> n.wf()
            }),
            others_unchanged(old(state).config, final(state).config, app),
    {
        match app {
            AppType::Claude => state.config.claude.upsert_prompt(p),
            AppType::Codex => state.config.codex.upsert_prompt(p),
            AppType::Gemini => state.config.gemini.upsert_prompt(p),
        }
    }

    /// Removes prompt `id` of `app`; `NotFound` when there is none.
    pub fn delete_prompt(state: &mut AppState, app: AppType, id: &str) -> (r: Result<Prompt, AppError>)
        ensures
            ({
                let (o, n) = (old(state).config.section(app), final(state).config.section(app));
                &&& r is Ok <==> has_prompt_id(o.prompts@, id@)
                &&& r matches Ok(p) ==> p.id@ == id@ && prompt_removed(o.prompts@, n.prompts@, p)
                &&& n.providers == o.providers
                &&& n.current == o.current
                &&& o.wf() ==> n.wf()
            }),
            r is Err ==> is_not_found(r, id@) && final(state).config == old(state).config,
            others_unchanged(old(state).config, final(state).config, app),
    {
        match app {
            AppType::Claude => state.config.claude.remove_prompt(id),
            AppType::Codex => state.config.codex.remove_prompt(id),
            AppType::Gemini => state.config.gemini.remove_prompt(id),
        }
    }

    /// Makes `id` the single active prompt of `app`, then projects the new
    /// block of `app` once into that application's live file `live`, the
    /// only file it touches. The text to write comes back; a projection
    /// failure leaves the store changed and names `app`.
    pub fn enable_prompt_synced(state: &mut AppState, app: AppType, id: &str, live: &str) -> (r: Result<String, AppError>)
        ensures
            ({
                let (o, n) = (old(state).config.section(app), final(state).config.section(app));
                &&& has_prompt_id(o.prompts@, id@) ==> {
                    &&& exclusively_enabled(o.prompts@, n.prompts@, id@)
                    &&& at_most_one_enabled(n.prompts@)
                    &&& n.providers == o.providers
                    &&& n.current == o.current
                    &&& others_unchanged(old(state).config, final(state).config, app)
                }
                &&& !has_prompt_id(o.prompts@, id@) ==> is_not_found(r, id@) && final(state).config == old(state).config
            }),
            r matches Ok(t) ==> projection(live@, block_text(final(state).config, app)) == Some(t@),
            has_prompt_id(old(state).config.section(app).prompts@, id@) && r is Err
                ==> is_projection_error(r, app) && projection(live@, block_text(final(state).config, app)) is None,
    {
        PromptService::enable_prompt(state, app, id)?;
        sync_app(state, app, live)
    }

    /// Makes `id` the single active prompt of `app`; `NotFound` when `app`
    /// has no such prompt.
    pub fn enable_prompt(state: &mut AppState, app: AppType, id: &str) -> (r: Result<(), AppError>)
        ensures
            ({
                let (o, n) = (old(state).config.section(app), final(state).config.section(app));
                &&& r is Ok <==> has_prompt_id(o.prompts@, id@)
                &&& r is Ok ==> {
                    &&& exclusively_enabled(o.prompts@, n.prompts@, id@)
                    &&& at_most_one_enabled(n.prompts@)
                    &&& n.providers == o.providers
                    &&& n.current == o.current
                }
                &&& at_most_one_enabled(o.prompts@) ==> at_most_one_enabled(n.prompts@)
                &&& o.wf() ==> n.wf()
            }),
            r is Err ==> is_not_found(r, id@) && final(state).config == old(state).config,
            others_unchanged(old(state).config, final(state).config, app),
    {
        match app {
            AppType::Claude => state.config.claude.enable_prompt(id),
            AppType::Codex => state.config.codex.enable_prompt(id),
            AppType::Gemini => state.config.gemini.enable_prompt(id),
        }
    }
}

} // verus!

//! Well-formedness checks for a store read from storage.
use vstd::prelude::*;
use crate::model::{AppConfig, AppError, AppState, MultiAppConfig, Prompt, at_most_one_enabled, ids_distinct, Identified};

verus! {

proof fn lemma_two_enabled(ps: Seq<Prompt>, a: int, b: int)
    requires
        0 <= a < ps.len(),
        0 <= b < ps.len(),
        a != b,
        ps[a].enabled,
        ps[b].enabled,
    ensures
        !at_most_one_enabled(ps),
{
}

fn single_enabled(sec: &AppConfig) -> (r: bool)
    ensures
        r == at_most_one_enabled(sec.prompts@),
{
    let ps = &sec.prompts;
    let mut seen: Option<usize> = None;
    let mut i: usize = 0;
    while i < ps.len()
        invariant
            ps@ == sec.prompts@,
            i <= ps@.len(),
            match seen {
                Some(k) => k < i && ps@[k as int].enabled
                    && forall|j: int| 0 <= j < i && j != k ==> !(#[trigger] ps@[j]).enabled,
                None => forall|j: int| 0 <= j < i ==> !(#[trigger] ps@[j]).enabled,
            },
        decreases ps@.len() - i,
    {
        if ps[i].enabled {
            if let Some(k) = seen {
                assert(ps@[k as int].enabled && ps@[i as int].enabled && k != i);
                proof {
                    lemma_two_enabled(ps@, k as int, i as int);
                }
                return false;
            }
            seen = Some(i);
        }
        i += 1;
    }
    true
}

fn section_ok(sec: &AppConfig) -> (r: bool)
    ensures
        r == sec.wf(),
{
    let r = ids_distinct(&sec.providers) && ids_distinct(&sec.prompts) && single_enabled(sec);
    proof {
        assert forall|j: int| 0 <= j < sec.providers@.len() implies #[trigger] sec.providers@[j].id@ == sec.providers@[j].ident() by {}
        assert forall|j: int| 0 <= j < sec.prompts@.len() implies #[trigger] sec.prompts@[j].id@ == sec.prompts@[j].ident() by {}
    }
    r
}

impl MultiAppConfig {
    /// Whether the store is well formed.
    pub fn is_well_formed(&self) -> (r: bool)
        ensures
            r == self.wf(),
    {
        let r = section_ok(&self.claude) && section_ok(&self.codex) && section_ok(&self.gemini)
            && ids_distinct(&self.mcp_servers);
        proof {
            assert forall|j: int| 0 <= j < self.mcp_servers@.len() implies #[trigger] self.mcp_servers@[j].id@ == self.mcp_servers@[j].ident() by {}
        }
        r
    }
}

impl AppState {
    /// The state over a store read from storage; `ConfigLoad` when the store
    /// repeats an identifier or enables two prompts of one application.
    pub fn from_config(config: MultiAppConfig) -> (r: Result<AppState, AppError>)
        ensures
            r is Ok <==> config.wf(),
            r matches Ok(s) ==> s.config == config,
            r is Err ==> r matches Err(AppError::ConfigLoad(_)),
    {
        if config.is_well_formed() {
            Ok(AppState { config })
        } else {
            Err(AppError::ConfigLoad("the store repeats an identifier or has two active prompts".to_owned()))
        }
    }
}

} // verus!

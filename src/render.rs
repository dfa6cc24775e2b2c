//! The block that the engine writes into an application's live file: the
//! current provider's settings, the servers enabled for the application
//! and its active prompt.
use vstd::prelude::*;
use crate::model::{AppType, McpServer, MultiAppConfig, Prompt, Provider, enabled_for};

verus! {

pub open spec fn provider_lines(ps: Seq<Provider>, id: Seq<char>) -> Seq<char>
    decreases ps.len(),
{
    if ps.len() == 0 {
        Seq::empty()
    } else {
        provider_lines(ps.drop_last(), id) + if ps.last().id@ == id {
            ps.last().settings@ + "\n"@
        } else {
            Seq::empty()
        }
    }
}

pub open spec fn server_lines(ss: Seq<McpServer>, app: AppType) -> Seq<char>
    decreases ss.len(),
{
    if ss.len() == 0 {
        Seq::empty()
    } else {
        server_lines(ss.drop_last(), app) + if enabled_for(ss.last().apps, app) {
            "[mcp."@ + ss.last().id@ + "]\n"@ + ss.last().server@ + "\n"@
        } else {
            Seq::empty()
        }
    }
}

pub open spec fn prompt_lines(ps: Seq<Prompt>) -> Seq<char>
    decreases ps.len(),
{
    if ps.len() == 0 {
        Seq::empty()
    } else {
        prompt_lines(ps.drop_last()) + if ps.last().enabled {
            "[prompt."@ + ps.last().id@ + "]\n"@ + ps.last().content@ + "\n"@
        } else {
            Seq::empty()
        }
    }
}

/// The block for `app`: a header naming the current provider, that
/// provider's settings, one entry per server enabled for `app` in store
/// order, and the enabled prompt.
pub open spec fn block_text(cfg: MultiAppConfig, app: AppType) -> Seq<char> {
    let sec = cfg.section(app);
    "provider = "@ + sec.current@ + "\n"@ + provider_lines(sec.providers@, sec.current@)
        + server_lines(cfg.mcp_servers@, app) + prompt_lines(sec.prompts@)
}

/// Renders the block that `app`'s live file receives.
pub fn render_block(cfg: &MultiAppConfig, app: AppType) -> (r: String)
    ensures
        r@ == block_text(*cfg, app),
{
    let sec = cfg.section_ref(app);
    let mut out = "provider = ".to_owned();
    out.append(sec.current.as_str());
    out.append("\n");
    let ghost head = out@;
    let ps = &sec.providers;
    let mut i: usize = 0;
    while i < ps.len()
        invariant
            i <= ps@.len(),
            out@ == head + provider_lines(ps@.take(i as int), sec.current@),
        decreases ps@.len() - i,
    {
        if ps[i].id == sec.current {
            out.append(ps[i].settings.as_str());
            out.append("\n");
        }
        proof {
            assert(ps@.take(i + 1).drop_last() =~= ps@.take(i as int));
        }
        i += 1;
    }
    assert(ps@.take(ps@.len() as int) =~= ps@);
    let ghost head = out@;
    let ss = &cfg.mcp_servers;
    let mut i: usize = 0;
    while i < ss.len()
        invariant
            i <= ss@.len(),
            out@ == head + server_lines(ss@.take(i as int), app),
        decreases ss@.len() - i,
    {
        if ss[i].apps.is_enabled_for(app) {
            out.append("[mcp.");
            out.append(ss[i].id.as_str());
            out.append("]\n");
            out.append(ss[i].server.as_str());
            out.append("\n");
        }
        proof {
            assert(ss@.take(i + 1).drop_last() =~= ss@.take(i as int));
        }
        i += 1;
    }
    assert(ss@.take(ss@.len() as int) =~= ss@);
    let ghost head = out@;
    let qs = &sec.prompts;
    let mut i: usize = 0;
    while i < qs.len()
        invariant
            i <= qs@.len(),
            out@ == head + prompt_lines(qs@.take(i as int)),
        decreases qs@.len() - i,
    {
        if qs[i].enabled {
            out.append("[prompt.");
            out.append(qs[i].id.as_str());
            out.append("]\n");
            out.append(qs[i].content.as_str());
            out.append("\n");
        }
        proof {
            assert(qs@.take(i + 1).drop_last() =~= qs@.take(i as int));
        }
        i += 1;
    }
    assert(qs@.take(qs@.len() as int) =~= qs@);
    out
}

} // verus!

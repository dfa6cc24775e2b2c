use cc_switch::commands::env::{execute as env_execute, EnvCommand};
use cc_switch::commands::provider::{execute as provider_execute, ProviderCommand, ProviderReport};
use cc_switch::listing::{
    active_prompt, enabled_server_count, prompt_menu_rows, provider_menu_rows, switch_choices,
    provider_table_rows, server_menu_rows,
};
use cc_switch::live::{begin_marker, end_marker, project};
use cc_switch::mcp::{sync_app, LiveFiles, McpService};
use cc_switch::model::{
    find_provider, AppConfig, AppError, AppState, AppType, McpApps, McpServer, MultiAppConfig, Prompt,
    Provider,
};
use cc_switch::order::{prompt_display_order, provider_display_order};
use cc_switch::prompt::PromptService;
use cc_switch::provider::ProviderService;
use cc_switch::render::render_block;
use cc_switch::textorder::{order_by_text, text_leq};
use cc_switch::ui::{created_label, error, highlight, info, success, warning};

fn provider(id: &str, sort_index: Option<u64>, created_at: Option<i64>) -> Provider {
    Provider {
        id: id.to_string(),
        name: format!("Name {}", id),
        category: None,
        settings: format!("settings-{}", id),
        created_at,
        sort_index,
    }
}

fn prompt(id: &str, enabled: bool, updated_at: Option<i64>) -> Prompt {
    Prompt {
        id: id.to_string(),
        name: format!("Prompt {}", id),
        content: format!("content-{}", id),
        description: None,
        enabled,
        updated_at,
    }
}

fn section(ids: &[&str], current: &str) -> AppConfig {
    AppConfig {
        providers: ids.iter().map(|i| provider(i, None, None)).collect(),
        current: current.to_string(),
        prompts: Vec::new(),
    }
}

fn empty_section() -> AppConfig {
    AppConfig { providers: Vec::new(), current: String::new(), prompts: Vec::new() }
}

fn state_with(first: AppConfig) -> AppState {
    AppState {
        config: MultiAppConfig {
            claude: first,
            codex: empty_section(),
            gemini: empty_section(),
            mcp_servers: Vec::new(),
        },
    }
}

fn ids(ps: &Vec<Provider>) -> Vec<String> {
    ps.iter().map(|p| p.id.clone()).collect()
}

#[test]
fn switch_then_delete_scenario() {
    let mut state = state_with(section(&["a", "b"], "a"));
    let prev = ProviderService::switch(&mut state, AppType::Claude, "b").unwrap();
    assert_eq!(prev, "a");
    assert_eq!(ProviderService::current(&state, AppType::Claude).unwrap(), "b");
    let removed = ProviderService::delete(&mut state, AppType::Claude, "a").unwrap();
    assert_eq!(removed.id, "a");
    assert_eq!(ids(ProviderService::list(&state, AppType::Claude)), vec!["b".to_string()]);
    let r = ProviderService::delete(&mut state, AppType::Claude, "b");
    assert!(matches!(r, Err(AppError::InvalidOperation(_))));
    assert_eq!(ids(ProviderService::list(&state, AppType::Claude)), vec!["b".to_string()]);
}

#[test]
fn switch_success_sets_current_and_keeps_list() {
    let mut state = state_with(section(&["a", "b", "c"], "a"));
    ProviderService::switch(&mut state, AppType::Claude, "c").unwrap();
    assert_eq!(ProviderService::current(&state, AppType::Claude).unwrap(), "c");
    assert!(ids(ProviderService::list(&state, AppType::Claude)).contains(&"c".to_string()));
    assert_eq!(ProviderService::list(&state, AppType::Claude).len(), 3);
}

#[test]
fn switch_to_absent_id_is_not_found() {
    let mut state = state_with(section(&["a", "b"], "a"));
    let r = ProviderService::switch(&mut state, AppType::Claude, "zzz");
    match r {
        Err(AppError::NotFound(id)) => assert_eq!(id, "zzz"),
        _ => panic!("expected NotFound"),
    }
    assert_eq!(ProviderService::current(&state, AppType::Claude).unwrap(), "a");
}

#[test]
fn switch_failure_can_be_rolled_back() {
    let mut state = state_with(section(&["a", "b"], "a"));
    let prev = ProviderService::switch(&mut state, AppType::Claude, "b").unwrap();
    ProviderService::restore(&mut state, AppType::Claude, prev);
    assert_eq!(ProviderService::current(&state, AppType::Claude).unwrap(), "a");
}

#[test]
fn delete_current_is_invalid_and_changes_nothing() {
    let mut state = state_with(section(&["a", "b"], "a"));
    let r = ProviderService::delete(&mut state, AppType::Claude, "a");
    assert!(matches!(r, Err(AppError::InvalidOperation(_))));
    assert_eq!(ProviderService::current(&state, AppType::Claude).unwrap(), "a");
    assert_eq!(ids(ProviderService::list(&state, AppType::Claude)), vec!["a".to_string(), "b".to_string()]);
}

#[test]
fn delete_absent_is_not_found() {
    let mut state = state_with(section(&["a", "b"], "a"));
    let r = ProviderService::delete(&mut state, AppType::Claude, "q");
    assert!(matches!(r, Err(AppError::NotFound(_))));
    assert_eq!(ProviderService::list(&state, AppType::Claude).len(), 2);
}

#[test]
fn current_absent_from_map_is_not_found() {
    let state = state_with(section(&["a"], "gone"));
    assert!(matches!(ProviderService::current(&state, AppType::Claude), Err(AppError::NotFound(_))));
}

#[test]
fn services_touch_only_their_application() {
    let mut state = state_with(section(&["a", "b"], "a"));
    state.config.codex = section(&["x", "y"], "x");
    ProviderService::switch(&mut state, AppType::Codex, "y").unwrap();
    assert_eq!(ProviderService::current(&state, AppType::Claude).unwrap(), "a");
    assert_eq!(ProviderService::current(&state, AppType::Codex).unwrap(), "y");
}

fn prompt_state() -> AppState {
    let mut state = state_with(section(&["a"], "a"));
    state.config.gemini = AppConfig {
        providers: vec![provider("g", None, None)],
        current: "g".to_string(),
        prompts: vec![prompt("p1", true, Some(5)), prompt("p2", false, Some(9))],
    };
    state
}

#[test]
fn enabling_a_prompt_disables_the_other() {
    let mut state = prompt_state();
    let before = render_block(&state.config, AppType::Gemini);
    assert!(before.contains("[prompt.p1]\ncontent-p1\n"));
    PromptService::enable_prompt(&mut state, AppType::Gemini, "p2").unwrap();
    let ps = PromptService::get_prompts(&state, AppType::Gemini);
    assert!(!ps[0].enabled);
    assert!(ps[1].enabled);
    let after = sync_app(&state, AppType::Gemini, "user = 1\n").unwrap();
    assert_eq!(after.matches("[prompt.").count(), 1);
    assert!(after.contains("[prompt.p2]\ncontent-p2\n"));
    assert!(after.starts_with("user = 1\n"));
}

#[test]
fn at_most_one_prompt_enabled_after_enable() {
    let mut state = prompt_state();
    state.config.gemini.prompts.push(prompt("p3", false, None));
    for id in ["p3", "p1", "p2"] {
        PromptService::enable_prompt(&mut state, AppType::Gemini, id).unwrap();
        let ps = PromptService::get_prompts(&state, AppType::Gemini);
        assert_eq!(ps.iter().filter(|p| p.enabled).count(), 1);
        assert_eq!(ps[active_prompt(ps).unwrap()].id, id);
    }
}

#[test]
fn enable_prompt_twice_is_idempotent() {
    let mut state = prompt_state();
    PromptService::enable_prompt(&mut state, AppType::Gemini, "p2").unwrap();
    let once: Vec<(String, bool)> =
        PromptService::get_prompts(&state, AppType::Gemini).iter().map(|p| (p.id.clone(), p.enabled)).collect();
    PromptService::enable_prompt(&mut state, AppType::Gemini, "p2").unwrap();
    let twice: Vec<(String, bool)> =
        PromptService::get_prompts(&state, AppType::Gemini).iter().map(|p| (p.id.clone(), p.enabled)).collect();
    assert_eq!(once, twice);
}

#[test]
fn enable_absent_prompt_is_not_found() {
    let mut state = prompt_state();
    let r = PromptService::enable_prompt(&mut state, AppType::Gemini, "nope");
    assert!(matches!(r, Err(AppError::NotFound(_))));
    assert!(PromptService::get_prompts(&state, AppType::Gemini)[0].enabled);
}

fn server(id: &str) -> McpServer {
    McpServer {
        id: id.to_string(),
        name: format!("Server {}", id),
        server: format!("command = \"{}\"", id),
        apps: McpApps::none(),
    }
}

fn files() -> LiveFiles {
    LiveFiles {
        claude: "{\"theme\": \"dark\"}\n".to_string(),
        codex: "model = \"x\"\n".to_string(),
        gemini: String::new(),
    }
}

#[test]
fn enabling_server_for_one_app_changes_only_its_file() {
    let mut state = prompt_state();
    state.config.codex = section(&["x"], "x");
    McpService::upsert_server(&mut state, server("srv1"));
    let first = McpService::sync_all_enabled(&state, &files()).unwrap();
    assert!(!first.codex.contains("[mcp.srv1]"));
    McpService::set_enabled(&mut state, "srv1", AppType::Codex, true).unwrap();
    let second = McpService::sync_all_enabled(&state, &first).unwrap();
    assert!(second.codex.contains("[mcp.srv1]\ncommand = \"srv1\"\n"));
    assert!(second.codex.starts_with("model = \"x\"\n"));
    assert_eq!(second.claude, first.claude);
    assert_eq!(second.gemini, first.gemini);
}

#[test]
fn sync_twice_is_byte_identical() {
    let mut state = prompt_state();
    McpService::upsert_server(&mut state, server("s1"));
    McpService::upsert_server(&mut state, server("s2"));
    McpService::set_enabled(&mut state, "s2", AppType::Claude, true).unwrap();
    let once = McpService::sync_all_enabled(&state, &files()).unwrap();
    let twice = McpService::sync_all_enabled(&state, &once).unwrap();
    assert_eq!(once.claude, twice.claude);
    assert_eq!(once.codex, twice.codex);
    assert_eq!(once.gemini, twice.gemini);
}

#[test]
fn server_edits_replace_and_delete() {
    let mut state = prompt_state();
    McpService::upsert_server(&mut state, server("s1"));
    let mut changed = server("s1");
    changed.name = "Renamed".to_string();
    McpService::upsert_server(&mut state, changed);
    let all = McpService::get_all_servers(&state);
    assert_eq!(all.len(), 1);
    assert_eq!(all[0].name, "Renamed");
    assert!(matches!(McpService::delete_server(&mut state, "zz"), Err(AppError::NotFound(_))));
    assert!(matches!(McpService::set_enabled(&mut state, "zz", AppType::Codex, true), Err(AppError::NotFound(_))));
    assert_eq!(McpService::delete_server(&mut state, "s1").unwrap().id, "s1");
    assert!(McpService::get_all_servers(&state).is_empty());
}

#[test]
fn enabled_count_per_app() {
    let mut state = prompt_state();
    McpService::upsert_server(&mut state, server("s1"));
    McpService::upsert_server(&mut state, server("s2"));
    McpService::set_enabled(&mut state, "s1", AppType::Gemini, true).unwrap();
    let all = McpService::get_all_servers(&state);
    assert_eq!(enabled_server_count(all, AppType::Gemini), 1);
    assert_eq!(enabled_server_count(all, AppType::Codex), 0);
}

fn framed(before: &str, block: &str, after: &str) -> String {
    format!("{}{}{}{}{}", before, begin_marker(), block, end_marker(), after)
}

#[test]
fn projection_keeps_text_around_block() {
    let first = project("keep me\n", "block one\n").unwrap();
    assert_eq!(first, framed("keep me\n", "block one\n", ""));
    let with_tail = format!("{}tail = 1\n", first);
    let second = project(&with_tail, "block two\n").unwrap();
    assert_eq!(second, framed("keep me\n", "block two\n", "tail = 1\n"));
    assert_eq!(project(&second, "block two\n").unwrap(), second);
    assert_eq!(project("", "").unwrap(), framed("", "", ""));
}

#[test]
fn projection_with_partial_marker_at_end() {
    let start = "text\n# cc-switch";
    let once = project(start, "b\n").unwrap();
    assert_eq!(once, framed(start, "b\n", ""));
    assert_eq!(project(&once, "b\n").unwrap(), once);
}

#[test]
fn projection_refuses_unclosed_block_or_marker_in_payload() {
    let unclosed = format!("a\n{}b\n", begin_marker());
    assert!(project(&unclosed, "x\n").is_none());
    assert!(project("a\n", end_marker()).is_none());
    let mut state = state_with(section(&["a"], "a"));
    state.config.claude.providers[0].settings = end_marker().to_string();
    match sync_app(&state, AppType::Claude, "") {
        Err(AppError::Projection(app, _)) => assert_eq!(app, AppType::Claude),
        _ => panic!("expected a projection error"),
    }
    assert!(matches!(McpService::sync_all_enabled(&state, &files()), Err(AppError::Projection(AppType::Claude, _))));
}

#[test]
fn block_lists_current_provider_settings() {
    let state = state_with(section(&["a", "b"], "b"));
    let block = render_block(&state.config, AppType::Claude);
    assert_eq!(block, "provider = b\nsettings-b\n");
}

#[test]
fn providers_sort_by_index_then_creation() {
    let ps = vec![
        provider("late", None, Some(30)),
        provider("idx2", Some(2), Some(1)),
        provider("early", None, Some(10)),
        provider("idx1b", Some(1), Some(50)),
        provider("idx1a", Some(1), Some(40)),
        provider("undated", None, None),
    ];
    let order = provider_display_order(&ps);
    let names: Vec<&str> = order.iter().map(|&i| ps[i].id.as_str()).collect();
    assert_eq!(names, vec!["idx1a", "idx1b", "idx2", "undated", "early", "late"]);
}

#[test]
fn prompts_sort_most_recent_first() {
    let ps = vec![
        prompt("old", false, Some(1)),
        prompt("none", false, None),
        prompt("new", false, Some(7)),
        prompt("ancient", false, Some(-5)),
    ];
    let order = prompt_display_order(&ps);
    let names: Vec<&str> = order.iter().map(|&i| ps[i].id.as_str()).collect();
    assert_eq!(names, vec!["new", "old", "ancient", "none"]);
    assert!(prompt_display_order(&Vec::new()).is_empty());
}

#[test]
fn table_rows_mark_current_provider() {
    let mut ps = vec![provider("a", None, Some(0)), provider("b", None, None)];
    ps[1].category = Some("custom".to_string());
    let rows = provider_table_rows(&ps, "b");
    assert_eq!(rows.len(), 2);
    // an absent creation time sorts first
    assert!(rows[0][1].contains("b"));
    assert!(rows[0][0].contains("\u{2713}"));
    assert_eq!(rows[0][3], "custom");
    assert_eq!(rows[0][4], "Unknown");
    assert_eq!(rows[1][0], "");
    assert_eq!(rows[1][1], "a");
    assert_eq!(rows[1][3], "unknown");
    assert_eq!(rows[1][4], "1970-01-01 00:00");
}

#[test]
fn created_label_formats_utc() {
    assert_eq!(created_label(Some(86_400 + 3_661), true), "1970-01-02 01:01:01");
    assert_eq!(created_label(Some(86_400 + 3_661), false), "1970-01-02 01:01");
    assert_eq!(created_label(None, true), "Unknown");
    assert_eq!(created_label(Some(i64::MAX), false), "Unknown");
    assert_eq!(created_label(Some(-86_400), false), "1969-12-31 00:00");
    assert_eq!(created_label(Some(1_700_000_000), true), "2023-11-14 22:13:20");
}

#[test]
fn colors_wrap_or_keep_text() {
    let cases = [
        (success("ok"), "32"),
        (error("ok"), "31"),
        (warning("ok"), "33"),
        (info("ok"), "36"),
        (highlight("ok"), "1;94"),
    ];
    for (shown, code) in cases.iter() {
        assert!(*shown == "ok" || *shown == format!("\x1B[{}mok\x1B[0m", code), "{:?}", shown);
    }
}

#[test]
fn switch_choices_sorted_by_label() {
    let mut ps = vec![provider("c", None, None), provider("a", None, None), provider("b", None, None)];
    ps[0].name = "Alpha".to_string();
    ps[1].name = "Zulu".to_string();
    ps[2].name = "Alpha".to_string();
    // labels: "Alpha (c)", "Zulu (a)", "Alpha (b)"
    assert_eq!(switch_choices(&ps, "x"), vec![2, 0, 1]);
    assert_eq!(switch_choices(&ps, "b"), vec![0, 1]);
    assert!(switch_choices(&vec![provider("a", None, None)], "a").is_empty());
}

#[test]
fn env_commands_report_messages() {
    assert_eq!(env_execute(EnvCommand::Check, None).unwrap(), "Checking environment variable conflicts...");
    assert_eq!(env_execute(EnvCommand::List, Some(AppType::Codex)).unwrap(), "Listing environment variables...");
    let set = EnvCommand::SetVar { key: "K".to_string(), value: "V".to_string() };
    assert_eq!(env_execute(set, None).unwrap(), "Setting environment variable...");
    let unset = EnvCommand::Unset { key: "K".to_string() };
    assert_eq!(env_execute(unset, None).unwrap(), "Unsetting environment variable...");
}

#[test]
fn provider_command_flow() {
    let mut state = state_with(section(&["a", "b"], "a"));
    match provider_execute(ProviderCommand::List, None, &mut state, false).unwrap() {
        ProviderReport::Table { rows, current, .. } => {
            assert_eq!(rows.len(), 2);
            assert_eq!(current, "a");
        }
        _ => panic!("expected a table"),
    }
    let r = provider_execute(ProviderCommand::Delete { id: "a".to_string() }, None, &mut state, true);
    assert!(matches!(r, Err(AppError::InvalidOperation(_))));
    let r = provider_execute(ProviderCommand::Delete { id: "b".to_string() }, None, &mut state, false);
    assert!(matches!(r, Ok(ProviderReport::ConfirmDelete { .. })));
    assert_eq!(ProviderService::list(&state, AppType::Claude).len(), 2);
    let r = provider_execute(ProviderCommand::Switch { id: "b".to_string() }, None, &mut state, false);
    assert!(matches!(r, Ok(ProviderReport::Switched { .. })));
    let r = provider_execute(ProviderCommand::Delete { id: "a".to_string() }, None, &mut state, true);
    assert!(matches!(r, Ok(ProviderReport::Deleted { .. })));
    match provider_execute(ProviderCommand::Current, None, &mut state, false).unwrap() {
        ProviderReport::Details { id, name, category, created, .. } => {
            assert_eq!(id, "b");
            assert_eq!(name, "Name b");
            assert_eq!(category, "unknown");
            assert_eq!(created, "Unknown");
        }
        _ => panic!("expected details"),
    }
    let mut empty = state_with(empty_section());
    assert!(matches!(
        provider_execute(ProviderCommand::List, None, &mut empty, false),
        Ok(ProviderReport::NoProviders { .. })
    ));
    assert!(matches!(
        provider_execute(ProviderCommand::Edit { id: "b".to_string() }, None, &mut state, false),
        Ok(ProviderReport::Pending { .. })
    ));
}

#[test]
fn malformed_store_is_refused() {
    let good = state_with(section(&["a", "b"], "a")).config;
    assert!(good.is_well_formed());
    assert!(AppState::from_config(good).is_ok());
    let dup = state_with(section(&["a", "a"], "a")).config;
    assert!(matches!(AppState::from_config(dup), Err(AppError::ConfigLoad(_))));
    let mut two = prompt_state().config;
    two.gemini.prompts[1].enabled = true;
    assert!(!two.is_well_formed());
    let mut servers = prompt_state().config;
    servers.mcp_servers = vec![server("s"), server("s")];
    assert!(matches!(AppState::from_config(servers), Err(AppError::ConfigLoad(_))));
}

#[test]
fn menu_rows_follow_display_orders() {
    let ps = vec![provider("x", Some(2), None), provider("y", Some(1), None)];
    let rows = provider_menu_rows(&ps, "x");
    assert_eq!(rows[0], vec!["".to_string(), "Name y".to_string(), "unknown".to_string()]);
    assert!(rows[1][1].contains("Name x"));

    let mut long = prompt("p", true, Some(3));
    long.description = Some("d".repeat(50));
    let prompts = vec![prompt("q", false, Some(1)), long];
    let rows = prompt_menu_rows(&prompts);
    assert!(rows[0][1].contains("Prompt p"));
    assert_eq!(rows[0][2], "d".repeat(40));
    assert_eq!(rows[1], vec!["".to_string(), "Prompt q".to_string(), "".to_string()]);

    let mut b = server("beta");
    b.apps.codex = true;
    let servers = vec![b, server("alpha"), server("Zed")];
    let rows = server_menu_rows(&servers);
    let names: Vec<&str> = rows.iter().map(|r| r[0].as_str()).collect();
    assert_eq!(names, vec!["Server Zed", "Server alpha", "Server beta"]);
    assert_eq!(rows[2][1..].to_vec(), vec!["".to_string(), "\u{2713}".to_string(), "".to_string()]);
}

#[test]
fn text_order_is_by_character() {
    let v = |s: &str| s.chars().collect::<Vec<char>>();
    assert!(text_leq(&v("abc"), &v("abd")));
    assert!(!text_leq(&v("abd"), &v("abc")));
    assert!(text_leq(&v("ab"), &v("abc")));
    assert!(!text_leq(&v("abc"), &v("ab")));
    assert!(text_leq(&v(""), &v("")));
    let keys = vec![v("b"), v("a"), v("b"), v("")];
    assert_eq!(order_by_text(&keys), vec![3, 1, 0, 2]);
}

#[test]
fn switch_candidates_exclude_current_only() {
    let state = state_with(section(&["a", "b", "c"], "c"));
    let ps = ProviderService::list(&state, AppType::Claude);
    assert_eq!(switch_choices(ps, "c"), vec![0, 1]);
    assert_eq!(find_provider(ps, "b"), Some(1));
    assert_eq!(find_provider(ps, "z"), None);
}

#[test]
fn colors_apply_when_forced() {
    colored::control::set_override(true);
    assert_eq!(success("ok"), "\x1B[32mok\x1B[0m");
    assert_eq!(error("ok"), "\x1B[31mok\x1B[0m");
    assert_eq!(warning("ok"), "\x1B[33mok\x1B[0m");
    assert_eq!(info("ok"), "\x1B[36mok\x1B[0m");
    assert_eq!(highlight("ok"), "\x1B[1;94mok\x1B[0m");
    colored::control::set_override(false);
    assert_eq!(success("ok"), "ok");
    assert_eq!(highlight(""), "");
    colored::control::unset_override();
}

#[test]
fn prompt_edits_keep_one_active() {
    let mut state = prompt_state();
    let mut replacement = prompt("p2", true, Some(11));
    replacement.content = "fresh".to_string();
    PromptService::upsert_prompt(&mut state, AppType::Gemini, replacement);
    let ps = PromptService::get_prompts(&state, AppType::Gemini);
    assert_eq!(ps.len(), 2);
    assert_eq!(ps[1].content, "fresh");
    assert!(!ps[1].enabled);
    assert!(ps[0].enabled);
    PromptService::upsert_prompt(&mut state, AppType::Gemini, prompt("p3", true, None));
    let ps = PromptService::get_prompts(&state, AppType::Gemini);
    assert_eq!(ps.len(), 3);
    assert!(!ps[2].enabled);
    assert_eq!(ps.iter().filter(|p| p.enabled).count(), 1);
    assert_eq!(PromptService::delete_prompt(&mut state, AppType::Gemini, "p1").unwrap().id, "p1");
    assert!(active_prompt(PromptService::get_prompts(&state, AppType::Gemini)).is_none());
    assert!(matches!(PromptService::delete_prompt(&mut state, AppType::Gemini, "p1"), Err(AppError::NotFound(_))));
}

#[test]
fn settle_switch_keeps_or_restores() {
    let mut state = state_with(section(&["a", "b"], "a"));
    let prev = ProviderService::switch(&mut state, AppType::Claude, "b").unwrap();
    ProviderService::settle_switch(&mut state, AppType::Claude, prev.clone(), true);
    assert_eq!(ProviderService::current(&state, AppType::Claude).unwrap(), "b");
    ProviderService::settle_switch(&mut state, AppType::Claude, prev, false);
    assert_eq!(ProviderService::current(&state, AppType::Claude).unwrap(), "a");
}

#[test]
fn enable_prompt_synced_writes_one_file() {
    let mut state = prompt_state();
    let text = PromptService::enable_prompt_synced(&mut state, AppType::Gemini, "p2", "keep\n").unwrap();
    assert!(text.starts_with("keep\n"));
    assert_eq!(text.matches("[prompt.").count(), 1);
    assert!(text.contains("[prompt.p2]\ncontent-p2\n"));
    assert!(!PromptService::get_prompts(&state, AppType::Gemini)[0].enabled);
    let r = PromptService::enable_prompt_synced(&mut state, AppType::Gemini, "zz", "keep\n");
    assert!(matches!(r, Err(AppError::NotFound(_))));
}

#[test]
fn enable_prompt_with_repeated_ids_enables_one() {
    let mut state = prompt_state();
    state.config.gemini.prompts.push(prompt("p2", true, None));
    PromptService::enable_prompt(&mut state, AppType::Gemini, "p2").unwrap();
    let ps = PromptService::get_prompts(&state, AppType::Gemini);
    assert_eq!(ps.iter().filter(|p| p.enabled).count(), 1);
    assert!(ps[1].enabled);
}

#[test]
fn delete_command_refuses_dangling_current() {
    let mut state = state_with(section(&["a"], "gone"));
    let r = provider_execute(ProviderCommand::Delete { id: "gone".to_string() }, None, &mut state, true);
    assert!(matches!(r, Err(AppError::InvalidOperation(_))));
}

#[test]
fn prompt_menu_marks_enabled_row_only() {
    let ps = vec![prompt("a", false, Some(1)), prompt("b", true, Some(2)), prompt("c", false, None)];
    let rows = prompt_menu_rows(&ps);
    assert_eq!(rows.iter().filter(|r| !r[0].is_empty()).count(), 1);
    assert!(rows[0][1].contains("Prompt b"));
}

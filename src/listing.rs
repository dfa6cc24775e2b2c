//! What listings and menus show: table rows, selectable entries and counts.
use vstd::prelude::*;
use crate::model::{AppType, McpServer, Prompt, Provider, at_most_one_enabled, enabled_for};
use crate::order::{is_permutation, prompt_display_order, prompt_le, provider_display_order, provider_le};
use crate::text::chars_of;
use crate::textorder::{lemma_text_le_total, lemma_text_le_transitive, order_by_text, text_le, text_leq};
use crate::ui::{category_label, category_text, created_label, highlight, highlight_code, minute_pattern,
    painted, created_text, reset_code};

verus! {

pub open spec fn check_mark() -> Seq<char> {
    "\u{2713}"@
}

/// `cell` shows `text`, highlighted when `on`.
pub open spec fn shown(cell: Seq<char>, text: Seq<char>, on: bool) -> bool {
    if on {
        painted(cell, highlight_code(), text)
    } else {
        cell == text
    }
}


/// A row of the provider table: marker, identifier, name, category and
/// creation time; the current provider's marker, identifier and name are
/// highlighted.
pub open spec fn listing_row(cells: Seq<String>, p: Provider, current: Seq<char>) -> bool {
    let on = p.id@ == current;
    &&& cells.len() == 5
    &&& shown(cells[0]@, mark_text(on), on)
    &&& shown(cells[1]@, p.id@, on)
    &&& shown(cells[2]@, p.name@, on)
    &&& cells[3]@ == category_text(p)
    &&& created_text(cells[4]@, p.created_at, minute_pattern())
}

/// The check mark when `on`, else nothing.
pub open spec fn mark_text(on: bool) -> Seq<char> {
    if on {
        check_mark()
    } else {
        Seq::empty()
    }
}

fn mark(on: bool) -> (r: &'static str)
    ensures
        r@ == mark_text(on),
{
    proof {
        reveal_strlit("");
    }
    if on {
        "\u{2713}"
    } else {
        ""
    }
}

fn cell(text: &str, on: bool) -> (r: String)
    ensures
        shown(r@, text@, on),
{
    if on {
        highlight(text)
    } else {
        text.to_owned()
    }
}

/// The provider table of one application, one row per provider in
/// display order.
pub fn provider_table_rows(ps: &Vec<Provider>, current: &str) -> (r: Vec<Vec<String>>)
    ensures
        r@.len() == ps@.len(),
        exists|ord: Seq<usize>|
            {
                &&& is_permutation(ord, ps@.len())
                &&& forall|i: int, j: int| 0 <= i < j < ord.len() ==> provider_le(ps@[#[trigger] ord[i] as int], ps@[#[trigger] ord[j] as int])
                &&& forall|k: int| 0 <= k < r@.len() ==> listing_row(#[trigger] r@[k]@, ps@[ord[k] as int], current@)
            },
{
    let ord = provider_display_order(ps);
    let cur = current.to_owned();
    let mut rows: Vec<Vec<String>> = Vec::new();
    let mut k: usize = 0;
    while k < ord.len()
        invariant
            cur@ == current@,
            k <= ord@.len(),
            is_permutation(ord@, ps@.len()),
            rows@.len() == k,
            forall|j: int| 0 <= j < k ==> listing_row(#[trigger] rows@[j]@, ps@[ord@[j] as int], current@),
        decreases ord@.len() - k,
    {
        let p = &ps[ord[k]];
        let on = p.id == cur;
        let mut row: Vec<String> = Vec::new();
        row.push(cell(mark(on), on));
        row.push(cell(p.id.as_str(), on));
        row.push(cell(p.name.as_str(), on));
        row.push(category_label(p));
        row.push(created_label(p.created_at, false));
        assert(listing_row(row@, *p, current@));
        let ghost old_rows = rows@;
        rows.push(row);
        assert(forall|j: int| 0 <= j < k ==> rows@[j] == old_rows[j]);
        k += 1;
    }
    rows
}

/// A row of the provider menu: marker, name and category, all
/// highlighted for the current provider.
pub open spec fn menu_row(cells: Seq<String>, p: Provider, current: Seq<char>) -> bool {
    let on = p.id@ == current;
    &&& cells.len() == 3
    &&& shown(cells[0]@, mark_text(on), on)
    &&& shown(cells[1]@, p.name@, on)
    &&& shown(cells[2]@, category_text(p), on)
}

/// The provider menu of one application, one row per provider in display
/// order.
pub fn provider_menu_rows(ps: &Vec<Provider>, current: &str) -> (r: Vec<Vec<String>>)
    ensures
        r@.len() == ps@.len(),
        exists|ord: Seq<usize>|
            {
                &&& is_permutation(ord, ps@.len())
                &&& forall|i: int, j: int| 0 <= i < j < ord.len() ==> provider_le(ps@[#[trigger] ord[i] as int], ps@[#[trigger] ord[j] as int])
                &&& forall|k: int| 0 <= k < r@.len() ==> menu_row(#[trigger] r@[k]@, ps@[ord[k] as int], current@)
            },
{
    let ord = provider_display_order(ps);
    let cur = current.to_owned();
    let mut rows: Vec<Vec<String>> = Vec::new();
    let mut k: usize = 0;
    while k < ord.len()
        invariant
            cur@ == current@,
            k <= ord@.len(),
            is_permutation(ord@, ps@.len()),
            rows@.len() == k,
            forall|j: int| 0 <= j < k ==> menu_row(#[trigger] rows@[j]@, ps@[ord@[j] as int], current@),
        decreases ord@.len() - k,
    {
        let p = &ps[ord[k]];
        let on = p.id == cur;
        let category = category_label(p);
        let mut row: Vec<String> = Vec::new();
        row.push(cell(mark(on), on));
        row.push(cell(p.name.as_str(), on));
        row.push(cell(category.as_str(), on));
        assert(menu_row(row@, *p, current@));
        let ghost old_rows = rows@;
        rows.push(row);
        assert(forall|j: int| 0 <= j < k ==> rows@[j] == old_rows[j]);
        k += 1;
    }
    rows
}

/// At most the first forty characters of a prompt's description.
pub open spec fn description_excerpt(p: Prompt) -> Seq<char> {
    let d = match p.description {
        Some(d) => d@,
        None => Seq::empty(),
    };
    if d.len() <= 40 {
        d
    } else {
        d.take(40)
    }
}

/// A row of the prompt menu: marker, name and description excerpt; the
/// marker and name are highlighted for the enabled prompt.
pub open spec fn prompt_row(cells: Seq<String>, p: Prompt) -> bool {
    &&& cells.len() == 3
    &&& shown(cells[0]@, mark_text(p.enabled), p.enabled)
    &&& shown(cells[1]@, p.name@, p.enabled)
    &&& cells[2]@ == description_excerpt(p)
}

fn excerpt(p: &Prompt) -> (r: String)
    ensures
        r@ == description_excerpt(*p),
{
    match &p.description {
        None => String::new(),
        Some(d) => {
            let n = d.as_str().unicode_len();
            let end: usize = if n <= 40 { n } else { 40 };
            let r = d.as_str().substring_char(0, end).to_owned();
            assert(d@.len() <= 40 ==> d@.take(end as int) =~= d@);
            r
        },
    }
}

/// The row carries a mark in its first cell.
pub open spec fn marked(cells: Seq<String>) -> bool {
    cells.len() > 0 && cells[0]@.len() > 0
}

/// The prompt menu of one application, most recently updated first. A row
/// is marked exactly when its prompt is enabled, so with at most one
/// enabled prompt at most one row is marked.
pub fn prompt_menu_rows(ps: &Vec<Prompt>) -> (r: Vec<Vec<String>>)
    ensures
        r@.len() == ps@.len(),
        forall|k: int| 0 <= k < r@.len() ==> (marked(#[trigger] r@[k]@) <==> exists|i: int| 0 <= i < ps@.len() && ps@[i].enabled && prompt_row(r@[k]@, ps@[i])),
        at_most_one_enabled(ps@) ==> forall|a: int, b: int| 0 <= a < r@.len() && 0 <= b < r@.len() && a != b
            ==> !(marked(#[trigger] r@[a]@) && marked(#[trigger] r@[b]@)),
        exists|ord: Seq<usize>|
            {
                &&& is_permutation(ord, ps@.len())
                &&& forall|i: int, j: int| 0 <= i < j < ord.len() ==> prompt_le(ps@[#[trigger] ord[i] as int], ps@[#[trigger] ord[j] as int])
                &&& forall|k: int| 0 <= k < r@.len() ==> prompt_row(#[trigger] r@[k]@, ps@[ord[k] as int])
            },
{
    let ord = prompt_display_order(ps);
    let mut rows: Vec<Vec<String>> = Vec::new();
    let mut k: usize = 0;
    while k < ord.len()
        invariant
            k <= ord@.len(),
            is_permutation(ord@, ps@.len()),
            rows@.len() == k,
            forall|j: int| 0 <= j < k ==> prompt_row(#[trigger] rows@[j]@, ps@[ord@[j] as int]),
        decreases ord@.len() - k,
    {
        let p = &ps[ord[k]];
        let mut row: Vec<String> = Vec::new();
        row.push(cell(mark(p.enabled), p.enabled));
        row.push(cell(p.name.as_str(), p.enabled));
        row.push(excerpt(p));
        assert(prompt_row(row@, *p));
        let ghost old_rows = rows@;
        rows.push(row);
        assert(forall|j: int| 0 <= j < k ==> rows@[j] == old_rows[j]);
        k += 1;
    }
    proof {
        lemma_mark_cell();
        assert forall|k: int| 0 <= k < rows@.len() implies marked(#[trigger] rows@[k]@) == ps@[ord@[k] as int].enabled by {
            assert(prompt_row(rows@[k]@, ps@[ord@[k] as int]));
        }
        assert forall|k: int| 0 <= k < rows@.len() implies (marked(#[trigger] rows@[k]@) <==> exists|i: int| 0 <= i < ps@.len() && ps@[i].enabled && prompt_row(rows@[k]@, ps@[i])) by {
            let i = ord@[k] as int;
            assert(prompt_row(rows@[k]@, ps@[i]));
            if exists|j: int| 0 <= j < ps@.len() && ps@[j].enabled && prompt_row(rows@[k]@, ps@[j]) {
                let j = choose|j: int| 0 <= j < ps@.len() && ps@[j].enabled && prompt_row(rows@[k]@, ps@[j]);
                assert(shown(rows@[k]@[0]@, mark_text(true), true));
            }
        }
        if at_most_one_enabled(ps@) {
            assert forall|a: int, b: int| 0 <= a < rows@.len() && 0 <= b < rows@.len() && a != b
                implies !(marked(#[trigger] rows@[a]@) && marked(#[trigger] rows@[b]@)) by {
                if marked(rows@[a]@) && marked(rows@[b]@) {
                    assert(ps@[ord@[a] as int].enabled && ps@[ord@[b] as int].enabled);
                    assert(ord@[a] != ord@[b]);
                }
            }
        }
    }
    rows
}

/// A cell shown for a mark is empty exactly when the mark is off.
proof fn lemma_mark_cell()
    ensures
        forall|c: Seq<char>, on: bool| #[trigger] shown(c, mark_text(on), on) ==> (c.len() > 0 <==> on),
{
    reveal_strlit("\u{2713}");
    assert forall|c: Seq<char>, on: bool| #[trigger] shown(c, mark_text(on), on) implies (c.len() > 0 <==> on) by {
        if on {
            assert(check_mark().len() == 1);
            assert(reset_code().len() == 4) by {
                reveal_strlit("\x1B[0m");
            }
        }
    }
}

/// A row of the server menu: name, then a mark for each application the
/// server is enabled for.
pub open spec fn server_row(cells: Seq<String>, s: McpServer) -> bool {
    &&& cells.len() == 4
    &&& cells[0]@ == s.name@
    &&& cells[1]@ == mark_text(s.apps.claude)
    &&& cells[2]@ == mark_text(s.apps.codex)
    &&& cells[3]@ == mark_text(s.apps.gemini)
}

/// The server menu, ordered by identifier.
pub fn server_menu_rows(ss: &Vec<McpServer>) -> (r: Vec<Vec<String>>)
    ensures
        r@.len() == ss@.len(),
        exists|ord: Seq<usize>|
            {
                &&& is_permutation(ord, ss@.len())
                &&& forall|i: int, j: int| 0 <= i < j < ord.len() ==> text_le(ss@[#[trigger] ord[i] as int].id@, ss@[#[trigger] ord[j] as int].id@)
                &&& forall|k: int| 0 <= k < r@.len() ==> server_row(#[trigger] r@[k]@, ss@[ord[k] as int])
            },
{
    let mut keys: Vec<Vec<char>> = Vec::new();
    let mut i: usize = 0;
    while i < ss.len()
        invariant
            i <= ss@.len(),
            keys@.len() == i,
            forall|j: int| 0 <= j < i ==> (#[trigger] keys@[j])@ == ss@[j].id@,
        decreases ss@.len() - i,
    {
        keys.push(chars_of(ss[i].id.as_str()));
        i += 1;
    }
    let ord = order_by_text(&keys);
    let mut rows: Vec<Vec<String>> = Vec::new();
    let mut k: usize = 0;
    while k < ord.len()
        invariant
            k <= ord@.len(),
            is_permutation(ord@, ss@.len()),
            keys@.len() == ss@.len(),
            forall|j: int| 0 <= j < ss@.len() ==> (#[trigger] keys@[j])@ == ss@[j].id@,
            forall|a: int, b: int| 0 <= a < b < ord@.len() ==> text_le(keys@[#[trigger] ord@[a] as int]@, keys@[#[trigger] ord@[b] as int]@),
            rows@.len() == k,
            forall|j: int| 0 <= j < k ==> server_row(#[trigger] rows@[j]@, ss@[ord@[j] as int]),
        decreases ord@.len() - k,
    {
        let s = &ss[ord[k]];
        let mut row: Vec<String> = Vec::new();
        row.push(s.name.clone());
        row.push(mark(s.apps.claude).to_owned());
        row.push(mark(s.apps.codex).to_owned());
        row.push(mark(s.apps.gemini).to_owned());
        assert(server_row(row@, *s));
        let ghost old_rows = rows@;
        rows.push(row);
        assert(forall|j: int| 0 <= j < k ==> rows@[j] == old_rows[j]);
        k += 1;
    }
    assert forall|a: int, b: int| 0 <= a < b < ord@.len() implies text_le(ss@[#[trigger] ord@[a] as int].id@, ss@[#[trigger] ord@[b] as int].id@) by {
        assert(text_le(keys@[ord@[a] as int]@, keys@[ord@[b] as int]@));
    }
    rows
}

/// The label a provider is offered under when choosing one.
pub open spec fn choice_label(p: Provider) -> Seq<char> {
    p.name@ + " ("@ + p.id@ + ")"@
}

fn choice_labels(ps: &Vec<Provider>) -> (r: Vec<Vec<char>>)
    ensures
        r@.len() == ps@.len(),
        forall|i: int| 0 <= i < ps@.len() ==> (#[trigger] r@[i])@ == choice_label(ps@[i]),
{
    let mut r: Vec<Vec<char>> = Vec::new();
    let mut i: usize = 0;
    while i < ps.len()
        invariant
            i <= ps@.len(),
            r@.len() == i,
            forall|j: int| 0 <= j < i ==> (#[trigger] r@[j])@ == choice_label(ps@[j]),
        decreases ps@.len() - i,
    {
        let mut label = ps[i].name.clone();
        label.append(" (");
        label.append(ps[i].id.as_str());
        label.append(")");
        r.push(chars_of(label.as_str()));
        i += 1;
    }
    r
}

/// The providers one can switch to or delete: every provider but
/// `current`, each once, ordered by the label it is offered under.
pub fn switch_choices(ps: &Vec<Provider>, current: &str) -> (r: Vec<usize>)
    ensures
        forall|k: int| 0 <= k < r@.len() ==> #[trigger] r@[k] < ps@.len() && ps@[r@[k] as int].id@ != current@,
        forall|i: int| 0 <= i < ps@.len() && ps@[i].id@ != current@ ==> #[trigger] r@.contains(i as usize),
        forall|a: int, b: int| 0 <= a < r@.len() && 0 <= b < r@.len() && a != b ==> #[trigger] r@[a] != #[trigger] r@[b],
        forall|a: int, b: int| 0 <= a < b < r@.len() ==> text_le(choice_label(ps@[#[trigger] r@[a] as int]), choice_label(ps@[#[trigger] r@[b] as int])),
{
    let labels = choice_labels(ps);
    let cur = current.to_owned();
    let mut r: Vec<usize> = Vec::new();
    let mut n: usize = 0;
    while n < ps.len()
        invariant
            cur@ == current@,
            n <= ps@.len(),
            labels@.len() == ps@.len(),
            forall|i: int| 0 <= i < ps@.len() ==> (#[trigger] labels@[i])@ == choice_label(ps@[i]),
            forall|k: int| 0 <= k < r@.len() ==> #[trigger] r@[k] < n && ps@[r@[k] as int].id@ != current@,
            forall|i: int| 0 <= i < n && ps@[i].id@ != current@ ==> #[trigger] r@.contains(i as usize),
            forall|a: int, b: int| 0 <= a < r@.len() && 0 <= b < r@.len() && a != b ==> #[trigger] r@[a] != #[trigger] r@[b],
            forall|a: int, b: int| 0 <= a < b < r@.len() ==> text_le(labels@[#[trigger] r@[a] as int]@, labels@[#[trigger] r@[b] as int]@),
        decreases ps@.len() - n,
    {
        if ps[n].id != cur {
            let mut k: usize = 0;
            while k < r.len() && text_leq(&labels[r[k]], &labels[n])
                invariant
                    k <= r@.len(),
                    n < ps@.len(),
                    labels@.len() == ps@.len(),
                    forall|j: int| 0 <= j < r@.len() ==> #[trigger] r@[j] < n,
                    forall|j: int| 0 <= j < k ==> text_le(labels@[#[trigger] r@[j] as int]@, labels@[n as int]@),
                decreases r@.len() - k,
            {
                k += 1;
            }
            let ghost before = r@;
            let ghost kn = labels@[n as int]@;
            r.insert(k, n);
            proof {
                let after = r@;
                assert(after =~= before.insert(k as int, n));
                assert forall|i: int, j: int| 0 <= i < j < after.len() implies text_le(labels@[#[trigger] after[i] as int]@, labels@[#[trigger] after[j] as int]@) by {
                    if j < k {
                        assert(after[i] == before[i] && after[j] == before[j]);
                    } else if j == k {
                        assert(after[i] == before[i]);
                    } else if i == k {
                        assert(after[j] == before[j - 1]);
                        let bk = labels@[before[k as int] as int]@;
                        lemma_text_le_total(bk, kn);
                        if k != j - 1 {
                            assert(text_le(bk, labels@[before[j - 1] as int]@));
                            lemma_text_le_transitive(kn, bk, labels@[before[j - 1] as int]@);
                        }
                    } else if i < k {
                        assert(after[i] == before[i] && after[j] == before[j - 1]);
                    } else {
                        assert(after[i] == before[i - 1] && after[j] == before[j - 1]);
                    }
                }
                assert forall|i: int, j: int| 0 <= i < after.len() && 0 <= j < after.len() && i != j implies #[trigger] after[i] != #[trigger] after[j] by {
                    if i != k && j != k {
                        let bi = if i < k { i } else { i - 1 };
                        let bj = if j < k { j } else { j - 1 };
                        assert(after[i] == before[bi] && after[j] == before[bj]);
                    } else if i == k {
                        let bj = if j < k { j } else { j - 1 };
                        assert(after[j] == before[bj]);
                    } else {
                        let bi = if i < k { i } else { i - 1 };
                        assert(after[i] == before[bi]);
                    }
                }
                assert forall|i: int| 0 <= i < after.len() implies #[trigger] after[i] < n + 1 && ps@[after[i] as int].id@ != current@ by {
                    if i != k {
                        let bi = if i < k { i } else { i - 1 };
                        assert(after[i] == before[bi]);
                    }
                }
                assert forall|x: usize| before.contains(x) implies #[trigger] after.contains(x) by {
                    let w = choose|w: int| 0 <= w < before.len() && before[w] == x;
                    if w < k {
                        assert(after[w] == x);
                    } else {
                        assert(after[w + 1] == x);
                    }
                }
                assert(after[k as int] == n);
            }
        }
        n += 1;
    }
    assert forall|a: int, b: int| 0 <= a < b < r@.len() implies text_le(choice_label(ps@[#[trigger] r@[a] as int]), choice_label(ps@[#[trigger] r@[b] as int])) by {
        assert(text_le(labels@[r@[a] as int]@, labels@[r@[b] as int]@));
    }
    r
}

pub open spec fn count_enabled(ss: Seq<McpServer>, app: AppType) -> nat
    decreases ss.len(),
{
    if ss.len() == 0 {
        0
    } else {
        count_enabled(ss.drop_last(), app) + if enabled_for(ss.last().apps, app) { 1nat } else { 0nat }
    }
}

/// How many servers are enabled for `app`.
pub fn enabled_server_count(ss: &Vec<McpServer>, app: AppType) -> (r: usize)
    ensures
        r == count_enabled(ss@, app),
{
    let mut n: usize = 0;
    let mut i: usize = 0;
    while i < ss.len()
        invariant
            i <= ss@.len(),
            n == count_enabled(ss@.take(i as int), app),
            n <= i,
        decreases ss@.len() - i,
    {
        if ss[i].apps.is_enabled_for(app) {
            n += 1;
        }
        assert(ss@.take(i + 1).drop_last() =~= ss@.take(i as int));
        i += 1;
    }
    assert(ss@.take(ss@.len() as int) =~= ss@);
    n
}

/// The position of the enabled prompt, if one is enabled.
pub fn active_prompt(ps: &Vec<Prompt>) -> (r: Option<usize>)
    ensures
        match r {
            Some(i) => i < ps@.len() && ps@[i as int].enabled,
            None => forall|j: int| 0 <= j < ps@.len() ==> !(#[trigger] ps@[j]).enabled,
        },
{
    let mut i: usize = 0;
    while i < ps.len()
        invariant
            i <= ps@.len(),
            forall|j: int| 0 <= j < i ==> !(#[trigger] ps@[j]).enabled,
        decreases ps@.len() - i,
    {
        if ps[i].enabled {
            return Some(i);
        }
        i += 1;
    }
    None
}

} // verus!

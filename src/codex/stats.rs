use vstd::prelude::*;

use crate::codex::jsonl::{
    count_messages, extract_session_meta, extract_token_info, last_token, meta_within, sat_add, TokenInfo,
};
use crate::codex::session_scanner::{extract_date_from_path, path_date};
use crate::codex::sessions::{capped_count, SessionFile};
use crate::sort::{is_perm, key_lt, opt_key, sort_by_keys, sorted_along};
use crate::text::{lit, trimmed_lines};

verus! {

/// Token counts of one day.
#[derive(Debug, Clone, PartialEq)]
pub struct DailyTokenEntry {
    pub date: String,
    pub input_tokens: u64,
    pub output_tokens: u64,
    pub total_tokens: u64,
}

/// Token usage over all sessions. `tokens_by_model` holds each provider once.
#[derive(Debug, Clone, PartialEq)]
pub struct TokenUsageSummary {
    pub total_input_tokens: u64,
    pub total_output_tokens: u64,
    pub total_tokens: u64,
    pub tokens_by_model: Vec<(String, u64)>,
    pub daily_tokens: Vec<DailyTokenEntry>,
    pub session_count: u64,
    pub message_count: u64,
}

pub struct DayView {
    pub date: Seq<char>,
    pub input: u64,
    pub output: u64,
    pub total: u64,
}

impl View for DailyTokenEntry {
    type V = DayView;

    open spec fn view(&self) -> DayView {
        DayView {
            date: self.date@,
            input: self.input_tokens,
            output: self.output_tokens,
            total: self.total_tokens,
        }
    }
}

/// What the statistics add up, file by file.
pub struct StatsView {
    pub input: u64,
    pub output: u64,
    pub total: u64,
    pub by_model: Seq<(Seq<char>, u64)>,
    pub days: Seq<DayView>,
    pub sessions: u64,
    pub messages: u64,
}

/// Index of the first entry with key `k`, or -1.
pub open spec fn find_key(list: Seq<(Seq<char>, u64)>, k: Seq<char>) -> int
    decreases list.len(),
{
    if list.len() == 0 {
        -1
    } else if find_key(list.drop_last(), k) >= 0 {
        find_key(list.drop_last(), k)
    } else if list.last().0 == k {
        list.len() - 1
    } else {
        -1
    }
}

/// `list` with `amount` added to the entry of `k` (a new entry where there is none).
pub open spec fn add_keyed(list: Seq<(Seq<char>, u64)>, k: Seq<char>, amount: u64) -> Seq<(Seq<char>, u64)> {
    let i = find_key(list, k);
    if i < 0 {
        list.push((k, amount))
    } else {
        list.update(i, (k, sat_add(list[i].1, amount)))
    }
}

/// Index of the first day `d`, or -1.
pub open spec fn find_day(days: Seq<DayView>, d: Seq<char>) -> int
    decreases days.len(),
{
    if days.len() == 0 {
        -1
    } else if find_day(days.drop_last(), d) >= 0 {
        find_day(days.drop_last(), d)
    } else if days.last().date == d {
        days.len() - 1
    } else {
        -1
    }
}

/// `days` with the counts `t` added to day `d`.
pub open spec fn add_day(days: Seq<DayView>, d: Seq<char>, t: TokenInfo) -> Seq<DayView> {
    let i = find_day(days, d);
    if i < 0 {
        days.push(DayView { date: d, input: t.input_tokens, output: t.output_tokens, total: t.total_tokens })
    } else {
        days.update(
            i,
            DayView {
                date: d,
                input: sat_add(days[i].input, t.input_tokens),
                output: sat_add(days[i].output, t.output_tokens),
                total: sat_add(days[i].total, t.total_tokens),
            },
        )
    }
}

/// The provider a file's session record names, or "unknown".
pub open spec fn file_provider(f: SessionFile) -> Seq<char> {
    match meta_within(trimmed_lines(f.content@), 5) {
        Some(m) => match m.model_provider {
            Some(p) => p,
            None => "unknown"@,
        },
        None => "unknown"@,
    }
}

pub open spec fn empty_stats() -> StatsView {
    StatsView {
        input: 0,
        output: 0,
        total: 0,
        by_model: Seq::empty(),
        days: Seq::empty(),
        sessions: 0,
        messages: 0,
    }
}

/// The statistics after one more file is counted. A file whose last token
/// event is missing adds to the session and message counts only; one whose
/// path names no date adds to no day.
pub open spec fn add_file(s: StatsView, f: SessionFile) -> StatsView {
    let base = StatsView {
        sessions: sat_add(s.sessions, 1),
        messages: sat_add(s.messages, capped_count(f.content@) as u64),
        ..s
    };
    match last_token(trimmed_lines(f.content@)) {
        None => base,
        Some(t) => StatsView {
            input: sat_add(s.input, t.input_tokens),
            output: sat_add(s.output, t.output_tokens),
            total: sat_add(s.total, t.total_tokens),
            by_model: add_keyed(s.by_model, file_provider(f), t.total_tokens),
            days: match path_date(f.path@) {
                Some(d) => add_day(s.days, d, t),
                None => s.days,
            },
            ..base
        },
    }
}

pub open spec fn stats_of(files: Seq<SessionFile>) -> StatsView
    decreases files.len(),
{
    if files.len() == 0 {
        empty_stats()
    } else {
        add_file(stats_of(files.drop_last()), files.last())
    }
}

pub open spec fn keyed_view(v: Seq<(String, u64)>) -> Seq<(Seq<char>, u64)> {
    v.map_values(|e: (String, u64)| (e.0@, e.1))
}

pub open spec fn days_view(v: Seq<DailyTokenEntry>) -> Seq<DayView> {
    v.map_values(|e: DailyTokenEntry| e@)
}

proof fn lemma_find_key(list: Seq<(Seq<char>, u64)>, k: Seq<char>)
    ensures
        -1 <= find_key(list, k) < list.len(),
        find_key(list, k) >= 0 ==> list[find_key(list, k)].0 == k,
        find_key(list, k) < 0 ==> forall|j: int| 0 <= j < list.len() ==> #[trigger] list[j].0 != k,
        forall|j: int| 0 <= j < find_key(list, k) ==> #[trigger] list[j].0 != k,
    decreases list.len(),
{
    if list.len() > 0 {
        lemma_find_key(list.drop_last(), k);
        assert forall|j: int| 0 <= j < list.len() - 1 implies #[trigger] list[j] == list.drop_last()[j] by {}
    }
}

proof fn lemma_find_day(days: Seq<DayView>, d: Seq<char>)
    ensures
        -1 <= find_day(days, d) < days.len(),
        find_day(days, d) >= 0 ==> days[find_day(days, d)].date == d,
        find_day(days, d) < 0 ==> forall|j: int| 0 <= j < days.len() ==> #[trigger] days[j].date != d,
        forall|j: int| 0 <= j < find_day(days, d) ==> #[trigger] days[j].date != d,
    decreases days.len(),
{
    if days.len() > 0 {
        lemma_find_day(days.drop_last(), d);
        assert forall|j: int| 0 <= j < days.len() - 1 implies #[trigger] days[j] == days.drop_last()[j] by {}
    }
}

pub fn add_to_model(list: &mut Vec<(String, u64)>, k: String, amount: u64)
    ensures
        keyed_view(final(list)@) == add_keyed(keyed_view(old(list)@), k@, amount),
{
    let ghost lv = keyed_view(list@);
    proof {
        lemma_find_key(lv, k@);
    }
    let mut i: usize = 0;
    while i < list.len() && !(list[i].0 == k)
        invariant
            i <= list.len(),
            lv == keyed_view(list@),
            forall|j: int| 0 <= j < i ==> #[trigger] lv[j].0 != k@,
        decreases list.len() - i,
    {
        i = i + 1;
    }
    if i < list.len() {
        assert(lv[i as int].0 == k@);
        assert(find_key(lv, k@) == i);
        let v = list[i].1.saturating_add(amount);
        list.set(i, (k, v));
    } else {
        assert(find_key(lv, k@) < 0);
        list.push((k, amount));
    }
    assert(keyed_view(list@) =~= add_keyed(lv, k@, amount));
}

fn add_to_day(days: &mut Vec<DailyTokenEntry>, d: String, t: TokenInfo)
    ensures
        days_view(final(days)@) == add_day(days_view(old(days)@), d@, t),
{
    let ghost dv = days_view(days@);
    proof {
        lemma_find_day(dv, d@);
    }
    let mut i: usize = 0;
    while i < days.len() && !(days[i].date == d)
        invariant
            i <= days.len(),
            dv == days_view(days@),
            forall|j: int| 0 <= j < i ==> #[trigger] dv[j].date != d@,
        decreases days.len() - i,
    {
        i = i + 1;
    }
    if i < days.len() {
        assert(dv[i as int].date == d@);
        assert(find_day(dv, d@) == i);
        let e = DailyTokenEntry {
            date: d,
            input_tokens: days[i].input_tokens.saturating_add(t.input_tokens),
            output_tokens: days[i].output_tokens.saturating_add(t.output_tokens),
            total_tokens: days[i].total_tokens.saturating_add(t.total_tokens),
        };
        days.set(i, e);
    } else {
        assert(find_day(dv, d@) < 0);
        days.push(
            DailyTokenEntry {
                date: d,
                input_tokens: t.input_tokens,
                output_tokens: t.output_tokens,
                total_tokens: t.total_tokens,
            },
        );
    }
    assert(days_view(days@) =~= add_day(dv, d@, t));
}

/// `r` holds the days `g`, each once, earliest date first.
pub open spec fn days_in_order(r: Seq<DailyTokenEntry>, g: Seq<DayView>) -> bool {
    &&& exists|p: Seq<int>|
        is_perm(p, g.len() as int) && r.len() == p.len() && (forall|i: int|
            0 <= i < p.len() ==> #[trigger] r[i]@ == g[p[i]])
    &&& forall|i: int, j: int|
        0 <= i < j < r.len() ==> !key_lt(Some(r[j].date@), Some(r[i].date@))
}

/// Token usage over all rollout files: totals, per provider, and per day
/// (earliest first), with the number of sessions and messages. Each file
/// counts with its last token event; sums saturate at `u64::MAX`.
pub fn get_stats(files: &Vec<SessionFile>) -> (r: TokenUsageSummary)
    ensures
        r.total_input_tokens == stats_of(files@).input,
        r.total_output_tokens == stats_of(files@).output,
        r.total_tokens == stats_of(files@).total,
        keyed_view(r.tokens_by_model@) == stats_of(files@).by_model,
        days_in_order(r.daily_tokens@, stats_of(files@).days),
        r.session_count == stats_of(files@).sessions,
        r.message_count == stats_of(files@).messages,
{
    let mut input: u64 = 0;
    let mut output: u64 = 0;
    let mut total: u64 = 0;
    let mut by_model: Vec<(String, u64)> = Vec::new();
    let mut days: Vec<DailyTokenEntry> = Vec::new();
    let mut sessions: u64 = 0;
    let mut messages: u64 = 0;
    let mut i: usize = 0;
    while i < files.len()
        invariant
            i <= files.len(),
            ({
                let s = stats_of(files@.subrange(0, i as int));
                &&& s.input == input
                &&& s.output == output
                &&& s.total == total
                &&& s.by_model == keyed_view(by_model@)
                &&& s.days == days_view(days@)
                &&& s.sessions == sessions
                &&& s.messages == messages
            }),
        decreases files.len() - i,
    {
        let f = &files[i];
        assert(files@.subrange(0, i + 1).drop_last() =~= files@.subrange(0, i as int));
        let content = f.content.as_str();
        sessions = sessions.saturating_add(1);
        messages = messages.saturating_add(count_messages(content) as u64);
        let provider = match extract_session_meta(content) {
            Some(m) => match m.model_provider {
                Some(p) => p,
                None => lit("unknown"),
            },
            None => lit("unknown"),
        };
        if let Some(t) = extract_token_info(content) {
            input = input.saturating_add(t.input_tokens);
            output = output.saturating_add(t.output_tokens);
            total = total.saturating_add(t.total_tokens);
            add_to_model(&mut by_model, provider, t.total_tokens);
            if let Some(d) = extract_date_from_path(f.path.as_str()) {
                add_to_day(&mut days, d, t);
            }
        }
        i = i + 1;
    }
    assert(files@.subrange(0, files.len() as int) =~= files@);
    let ghost g = days_view(days@);
    let ghost es = days@;
    let mut keys: Vec<Option<String>> = Vec::new();
    let mut k: usize = 0;
    while k < days.len()
        invariant
            k <= days.len(),
            keys.len() == k,
            forall|j: int| 0 <= j < k ==> #[trigger] keys@[j] == Some(days@[j].date),
        decreases days.len() - k,
    {
        keys.push(Some(days[k].date.clone()));
        k = k + 1;
    }
    let ghost ks = keys@;
    let daily = sort_by_keys(days, keys, false);
    proof {
        let p = choose|p: Seq<int>|
            is_perm(p, es.len() as int) && sorted_along(ks, p, false) && daily.len() == p.len() && (
            forall|i: int| 0 <= i < p.len() ==> #[trigger] daily@[i] == es[p[i]]);
        assert forall|i: int| 0 <= i < p.len() implies #[trigger] daily@[i]@ == g[p[i]] by {
            assert(daily@[i] == es[p[i]]);
        }
        assert forall|i: int, j: int| 0 <= i < j < daily.len() implies !key_lt(
            Some(daily@[j].date@),
            Some(daily@[i].date@),
        ) by {
            assert(daily@[i] == es[p[i]]);
            assert(daily@[j] == es[p[j]]);
            assert(opt_key(ks[p[i]]) == Some(daily@[i].date@));
            assert(opt_key(ks[p[j]]) == Some(daily@[j].date@));
            assert(!crate::sort::precedes(opt_key(ks[p[j]]), opt_key(ks[p[i]]), false));
        }
    }
    TokenUsageSummary {
        total_input_tokens: input,
        total_output_tokens: output,
        total_tokens: total,
        tokens_by_model: by_model,
        daily_tokens: daily,
        session_count: sessions,
        message_count: messages,
    }
}

/// With no session files, every counter is zero and nothing is listed.
pub proof fn lemma_no_files_zero_stats(files: Seq<SessionFile>)
    requires
        files.len() == 0,
    ensures
        stats_of(files).input == 0,
        stats_of(files).output == 0,
        stats_of(files).total == 0,
        stats_of(files).by_model.len() == 0,
        stats_of(files).days.len() == 0,
        stats_of(files).sessions == 0,
        stats_of(files).messages == 0,
{
}

} // verus!

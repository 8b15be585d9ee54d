use vstd::prelude::*;

use crate::codex::jsonl::{or_zero, sat_add};
use crate::codex::stats::{add_keyed, keyed_view, DailyTokenEntry, DayView};
use crate::json::{field, json_of, parse_json, str_of, u64_of, Json};
use crate::shared_models::opt_view;
use crate::text::lit;

verus! {

/// Token usage of one model, as the usage cache records it.
#[derive(Debug, Clone, Copy, PartialEq, Eq, Structural)]
pub struct ModelUsage {
    pub input_tokens: u64,
    pub output_tokens: u64,
    pub cache_read_input_tokens: u64,
    pub cache_creation_input_tokens: u64,
}

/// Tokens per model on one day.
#[derive(Debug, Clone, PartialEq)]
pub struct DailyModelTokens {
    pub date: String,
    pub tokens_by_model: Vec<(String, u64)>,
}

/// The usage cache that the tool keeps up to date.
#[derive(Debug, Clone, PartialEq)]
pub struct StatsCache {
    pub last_computed_date: Option<String>,
    pub daily_model_tokens: Vec<DailyModelTokens>,
    pub model_usage: Vec<(String, ModelUsage)>,
}

/// Token usage with its per-day split.
#[derive(Debug, Clone, PartialEq)]
pub struct TokenUsageSummary {
    pub total_input_tokens: u64,
    pub total_output_tokens: u64,
    pub total_tokens: u64,
    pub tokens_by_model: Vec<(String, u64)>,
    pub daily_tokens: Vec<DailyTokenEntry>,
}

pub struct DayTokensView {
    pub date: Seq<char>,
    pub tokens: Seq<(Seq<char>, u64)>,
}

pub open spec fn days_tokens_view(v: Seq<DailyModelTokens>) -> Seq<DayTokensView> {
    v.map_values(|d: DailyModelTokens| DayTokensView { date: d.date@, tokens: keyed_view(d.tokens_by_model@) })
}

pub open spec fn usage_view(v: Seq<(String, ModelUsage)>) -> Seq<(Seq<char>, ModelUsage)> {
    v.map_values(|e: (String, ModelUsage)| (e.0@, e.1))
}

/// The cache of a tool that has recorded nothing yet.
pub fn empty_stats_cache() -> (r: StatsCache)
    ensures
        r.last_computed_date is None,
        r.daily_model_tokens@.len() == 0,
        r.model_usage@.len() == 0,
{
    StatsCache { last_computed_date: None, daily_model_tokens: Vec::new(), model_usage: Vec::new() }
}

/// The counts of a `{name: number}` object, in member order; members whose
/// value is no non-negative integer count as zero.
pub open spec fn counts_of(fields: Seq<(String, Json)>) -> Seq<(Seq<char>, u64)>
    decreases fields.len(),
{
    if fields.len() == 0 {
        Seq::empty()
    } else {
        counts_of(fields.drop_last()).push((fields.last().0@, or_zero(u64_of(Some(fields.last().1)))))
    }
}

pub open spec fn usage_of(j: Json) -> ModelUsage {
    ModelUsage {
        input_tokens: or_zero(u64_of(field(j, "inputTokens"@))),
        output_tokens: or_zero(u64_of(field(j, "outputTokens"@))),
        cache_read_input_tokens: or_zero(u64_of(field(j, "cacheReadInputTokens"@))),
        cache_creation_input_tokens: or_zero(u64_of(field(j, "cacheCreationInputTokens"@))),
    }
}

pub open spec fn usages_of(fields: Seq<(String, Json)>) -> Seq<(Seq<char>, ModelUsage)>
    decreases fields.len(),
{
    if fields.len() == 0 {
        Seq::empty()
    } else {
        usages_of(fields.drop_last()).push((fields.last().0@, usage_of(fields.last().1)))
    }
}

pub open spec fn day_of(j: Json) -> DayTokensView {
    DayTokensView {
        date: match str_of(field(j, "date"@)) {
            Some(d) => d,
            None => ""@,
        },
        tokens: match field(j, "tokensByModel"@) {
            Some(Json::Object(fs)) => counts_of(fs@),
            _ => Seq::empty(),
        },
    }
}

pub open spec fn days_of(items: Seq<Json>) -> Seq<DayTokensView>
    decreases items.len(),
{
    if items.len() == 0 {
        Seq::empty()
    } else {
        days_of(items.drop_last()).push(day_of(items.last()))
    }
}

fn counts_from(fields: &Vec<(String, Json)>) -> (r: Vec<(String, u64)>)
    ensures
        keyed_view(r@) == counts_of(fields@),
{
    let mut out: Vec<(String, u64)> = Vec::new();
    let mut i: usize = 0;
    while i < fields.len()
        invariant
            i <= fields.len(),
            keyed_view(out@) == counts_of(fields@.subrange(0, i as int)),
        decreases fields.len() - i,
    {
        assert(fields@.subrange(0, i + 1).drop_last() =~= fields@.subrange(0, i as int));
        let n = match &fields[i].1 {
            Json::Number(Some(v), _) => *v,
            _ => 0,
        };
        let ghost before = out@;
        out.push((fields[i].0.clone(), n));
        assert(keyed_view(out@) =~= keyed_view(before).push((fields@[i as int].0@, n)));
        i = i + 1;
    }
    assert(fields@.subrange(0, fields.len() as int) =~= fields@);
    out
}

fn zero_or(n: Option<u64>) -> (r: u64)
    ensures
        r == or_zero(n),
{
    match n {
        Some(v) => v,
        None => 0,
    }
}

fn usage_from(j: &Json) -> (r: ModelUsage)
    ensures
        r == usage_of(*j),
{
    ModelUsage {
        input_tokens: zero_or(j.get_u64("inputTokens")),
        output_tokens: zero_or(j.get_u64("outputTokens")),
        cache_read_input_tokens: zero_or(j.get_u64("cacheReadInputTokens")),
        cache_creation_input_tokens: zero_or(j.get_u64("cacheCreationInputTokens")),
    }
}

/// Reads the usage cache's text. Its `dailyModelTokens` and `modelUsage`
/// may be missing (nothing recorded); a text that is no JSON object is an error.
pub fn parse_stats_cache(text: &str) -> (r: Result<StatsCache, String>)
    ensures
        match json_of(text@) {
            Some(Json::Object(_)) => r matches Ok(c) && ({
                let doc = json_of(text@)->0;
                &&& opt_view(c.last_computed_date) == str_of(field(doc, "lastComputedDate"@))
                &&& days_tokens_view(c.daily_model_tokens@) == match field(doc, "dailyModelTokens"@) {
                    Some(Json::Array(items)) => days_of(items@),
                    _ => Seq::empty(),
                }
                &&& usage_view(c.model_usage@) == match field(doc, "modelUsage"@) {
                    Some(Json::Object(fs)) => usages_of(fs@),
                    _ => Seq::empty(),
                }
            }),
            _ => r is Err,
        },
{
    let doc = match parse_json(text) {
        Some(d) => d,
        None => return Err(lit("Failed to parse stats cache")),
    };
    if !matches!(doc, Json::Object(_)) {
        return Err(lit("Failed to parse stats cache"));
    }
    let mut days: Vec<DailyModelTokens> = Vec::new();
    if let Some(Json::Array(items)) = doc.get("dailyModelTokens") {
        let mut i: usize = 0;
        while i < items.len()
            invariant
                i <= items.len(),
                days_tokens_view(days@) == days_of(items@.subrange(0, i as int)),
            decreases items.len() - i,
        {
            assert(items@.subrange(0, i + 1).drop_last() =~= items@.subrange(0, i as int));
            let it = &items[i];
            let date = it.str_or("date", "");
            let tokens = match it.get("tokensByModel") {
                Some(Json::Object(fs)) => counts_from(fs),
                _ => Vec::new(),
            };
            let ghost before = days@;
            let d = DailyModelTokens { date, tokens_by_model: tokens };
            proof {
                if !(field(*it, "tokensByModel"@) matches Some(Json::Object(_))) {
                    assert(keyed_view(d.tokens_by_model@) =~= Seq::empty());
                }
            }
            days.push(d);
            assert(days_tokens_view(days@) =~= days_tokens_view(before).push(day_of(items@[i as int])));
            i = i + 1;
        }
        assert(items@.subrange(0, items.len() as int) =~= items@);
    } else {
        assert(days_tokens_view(days@) =~= Seq::empty());
    }
    let mut usage: Vec<(String, ModelUsage)> = Vec::new();
    if let Some(Json::Object(fs)) = doc.get("modelUsage") {
        let mut i: usize = 0;
        while i < fs.len()
            invariant
                i <= fs.len(),
                usage_view(usage@) == usages_of(fs@.subrange(0, i as int)),
            decreases fs.len() - i,
        {
            assert(fs@.subrange(0, i + 1).drop_last() =~= fs@.subrange(0, i as int));
            let ghost before = usage@;
            let u = usage_from(&fs[i].1);
            usage.push((fs[i].0.clone(), u));
            assert(usage_view(usage@) =~= usage_view(before).push((fs@[i as int].0@, u)));
            i = i + 1;
        }
        assert(fs@.subrange(0, fs.len() as int) =~= fs@);
    } else {
        assert(usage_view(usage@) =~= Seq::empty());
    }
    let last = match doc.get_str("lastComputedDate") {
        Some(s) => Some(s.clone()),
        None => None,
    };
    Ok(StatsCache { last_computed_date: last, daily_model_tokens: days, model_usage: usage })
}

/// The input tokens of all models (cache reads and writes included) and
/// their output tokens, saturating.
pub open spec fn usage_totals(u: Seq<(Seq<char>, ModelUsage)>) -> (u64, u64)
    decreases u.len(),
{
    if u.len() == 0 {
        (0, 0)
    } else {
        let (i, o) = usage_totals(u.drop_last());
        let m = u.last().1;
        (
            sat_add(sat_add(i, sat_add(sat_add(m.input_tokens, m.cache_read_input_tokens), m.cache_creation_input_tokens)), 0),
            sat_add(o, m.output_tokens),
        )
    }
}

/// The sum of a day's counts, saturating.
pub open spec fn day_sum(t: Seq<(Seq<char>, u64)>) -> u64
    decreases t.len(),
{
    if t.len() == 0 {
        0
    } else {
        sat_add(day_sum(t.drop_last()), t.last().1)
    }
}

/// The input share of a day's total: `total * input / (input + output)`
/// rounded down, or half the total where nothing is recorded at all.
pub open spec fn input_share(total: u64, input: u64, output: u64) -> u64 {
    let g = sat_add(input, output);
    if g > 0 {
        ((total as int * input as int) / (g as int)) as u64
    } else {
        (total / 2) as u64
    }
}

/// Totals, per-model sums and the days (in cache order), with each day's
/// total split into input and output by the global input share.
pub struct SummaryView {
    pub total: u64,
    pub by_model: Seq<(Seq<char>, u64)>,
    pub days: Seq<DayView>,
}

pub open spec fn summary_of(days: Seq<DayTokensView>, input: u64, output: u64) -> SummaryView
    decreases days.len(),
{
    if days.len() == 0 {
        SummaryView { total: 0, by_model: Seq::empty(), days: Seq::empty() }
    } else {
        let s = summary_of(days.drop_last(), input, output);
        let d = days.last();
        let t = day_sum(d.tokens);
        let share = input_share(t, input, output);
        SummaryView {
            total: sat_add(s.total, t),
            by_model: add_all(s.by_model, d.tokens),
            days: s.days.push(DayView { date: d.date, input: share, output: (t - share) as u64, total: t }),
        }
    }
}

/// `list` with each count of `t` added to its model.
pub open spec fn add_all(list: Seq<(Seq<char>, u64)>, t: Seq<(Seq<char>, u64)>) -> Seq<(Seq<char>, u64)>
    decreases t.len(),
{
    if t.len() == 0 {
        list
    } else {
        add_keyed(add_all(list, t.drop_last()), t.last().0, t.last().1)
    }
}

proof fn lemma_share_le(total: u64, input: u64, output: u64)
    ensures
        input_share(total, input, output) <= total,
{
    let g = sat_add(input, output);
    if g > 0 {
        assert(input as int <= g as int);
        assert((total as int * input as int) / (g as int) <= total as int) by (nonlinear_arith)
            requires
                0 <= input as int <= g as int,
                g as int > 0,
                total as int >= 0,
        ;
    }
}

fn share_of(total: u64, input: u64, output: u64) -> (r: u64)
    ensures
        r == input_share(total, input, output),
        r <= total,
{
    proof {
        lemma_share_le(total, input, output);
    }
    let g = input.saturating_add(output);
    if g > 0 {
        assert(total as int * input as int <= 0xffff_ffff_ffff_ffffint * 0xffff_ffff_ffff_ffffint)
            by (nonlinear_arith)
            requires
                0 <= total as int <= 0xffff_ffff_ffff_ffffint,
                0 <= input as int <= 0xffff_ffff_ffff_ffffint,
        ;
        let p: u128 = (total as u128) * (input as u128);
        assert(p as int == total as int * input as int);
        assert(g == sat_add(input, output));
        let q = p / (g as u128);
        assert(q as int == (p as int) / (g as int));
        assert((total as int * input as int) / (g as int) <= total as int) by (nonlinear_arith)
            requires
                0 <= input as int <= g as int,
                g as int > 0,
                total as int >= 0,
        ;
        assert(q as int == input_share(total, input, output) as int);
        q as u64
    } else {
        total / 2
    }
}

fn add_model(list: &mut Vec<(String, u64)>, k: &String, amount: u64)
    ensures
        keyed_view(final(list)@) == add_keyed(keyed_view(old(list)@), k@, amount),
{
    crate::codex::stats::add_to_model(list, k.clone(), amount);
}

/// Token totals, per-model sums and per-day entries from the usage cache.
/// Days keep the cache's order; their input/output split is an estimate:
/// the day's total times the global input share, rounded down.
pub fn get_token_summary(stats: &StatsCache) -> (r: TokenUsageSummary)
    ensures
        r.total_input_tokens == usage_totals(usage_view(stats.model_usage@)).0,
        r.total_output_tokens == usage_totals(usage_view(stats.model_usage@)).1,
        ({
            let s = summary_of(
                days_tokens_view(stats.daily_model_tokens@),
                r.total_input_tokens,
                r.total_output_tokens,
            );
            &&& r.total_tokens == s.total
            &&& keyed_view(r.tokens_by_model@) == s.by_model
            &&& crate::codex::stats::days_view(r.daily_tokens@) == s.days
        }),
{
    let ghost uv = usage_view(stats.model_usage@);
    let mut input: u64 = 0;
    let mut output: u64 = 0;
    let mut i: usize = 0;
    while i < stats.model_usage.len()
        invariant
            i <= stats.model_usage.len(),
            uv == usage_view(stats.model_usage@),
            usage_totals(uv.subrange(0, i as int)) == (input, output),
        decreases stats.model_usage.len() - i,
    {
        assert(uv.subrange(0, i + 1).drop_last() =~= uv.subrange(0, i as int));
        let m = stats.model_usage[i].1;
        input = input.saturating_add(
            m.input_tokens.saturating_add(m.cache_read_input_tokens).saturating_add(
                m.cache_creation_input_tokens,
            ),
        ).saturating_add(0);
        output = output.saturating_add(m.output_tokens);
        i = i + 1;
    }
    assert(uv.subrange(0, uv.len() as int) =~= uv);
    let ghost dv = days_tokens_view(stats.daily_model_tokens@);
    let mut total: u64 = 0;
    let mut by_model: Vec<(String, u64)> = Vec::new();
    let mut daily: Vec<DailyTokenEntry> = Vec::new();
    let mut d: usize = 0;
    while d < stats.daily_model_tokens.len()
        invariant
            d <= stats.daily_model_tokens.len(),
            dv == days_tokens_view(stats.daily_model_tokens@),
            ({
                let s = summary_of(dv.subrange(0, d as int), input, output);
                &&& total == s.total
                &&& keyed_view(by_model@) == s.by_model
                &&& crate::codex::stats::days_view(daily@) == s.days
            }),
        decreases stats.daily_model_tokens.len() - d,
    {
        assert(dv.subrange(0, d + 1).drop_last() =~= dv.subrange(0, d as int));
        let day = &stats.daily_model_tokens[d];
        let ghost tv = keyed_view(day.tokens_by_model@);
        assert(dv[d as int].tokens == tv);
        let ghost base = keyed_view(by_model@);
        let mut day_total: u64 = 0;
        let mut k: usize = 0;
        while k < day.tokens_by_model.len()
            invariant
                k <= day.tokens_by_model.len(),
                tv == keyed_view(day.tokens_by_model@),
                day_total == day_sum(tv.subrange(0, k as int)),
                keyed_view(by_model@) == add_all(base, tv.subrange(0, k as int)),
            decreases day.tokens_by_model.len() - k,
        {
            assert(tv.subrange(0, k + 1).drop_last() =~= tv.subrange(0, k as int));
            let (name, n) = (&day.tokens_by_model[k].0, day.tokens_by_model[k].1);
            day_total = day_total.saturating_add(n);
            add_model(&mut by_model, name, n);
            k = k + 1;
        }
        assert(tv.subrange(0, tv.len() as int) =~= tv);
        total = total.saturating_add(day_total);
        let day_input = share_of(day_total, input, output);
        let ghost before = daily@;
        daily.push(
            DailyTokenEntry {
                date: day.date.clone(),
                input_tokens: day_input,
                output_tokens: day_total - day_input,
                total_tokens: day_total,
            },
        );
        assert(crate::codex::stats::days_view(daily@) =~= crate::codex::stats::days_view(before).push(
            DayView { date: day.date@, input: day_input, output: (day_total - day_input) as u64, total: day_total },
        ));
        d = d + 1;
    }
    assert(dv.subrange(0, dv.len() as int) =~= dv);
    TokenUsageSummary {
        total_input_tokens: input,
        total_output_tokens: output,
        total_tokens: total,
        tokens_by_model: by_model,
        daily_tokens: daily,
    }
}

/// An empty cache gives all-zero totals and no models or days.
pub proof fn lemma_empty_cache_zero(c: StatsCache)
    requires
        c.daily_model_tokens@.len() == 0,
        c.model_usage@.len() == 0,
    ensures
        usage_totals(usage_view(c.model_usage@)) == (0u64, 0u64),
        summary_of(days_tokens_view(c.daily_model_tokens@), 0, 0).total == 0,
        summary_of(days_tokens_view(c.daily_model_tokens@), 0, 0).by_model.len() == 0,
        summary_of(days_tokens_view(c.daily_model_tokens@), 0, 0).days.len() == 0,
{
    assert(usage_view(c.model_usage@) =~= Seq::empty());
    assert(days_tokens_view(c.daily_model_tokens@) =~= Seq::empty());
}

} // verus!

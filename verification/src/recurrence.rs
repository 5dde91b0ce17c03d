//! The recurrence engine: a pure mapping from a recurrence rule and an
//! anchor date to the next occurrence date.

use vstd::prelude::*;
use crate::dates::{
    add_days, add_months, add_months_spec, date_valid, day_number, day_number_of,
    lemma_day_number_increasing, lemma_day_number_year_bound, weekday_index, weekday_of, Date,
    MAX_DAY_NUMBER, MAX_YEAR,
};
use crate::model::{Task, str_eq};
use crate::tags::{clean_tags_spec, split_commas, parse_tags};

verus! {

#[derive(Clone, Copy, Debug, PartialEq, Eq, Structural)]
pub enum WeekdayRule {
    Mon,
    Tue,
    Wed,
    Thu,
    Fri,
    Sat,
    Sun,
}

/// Weekday index of a rule day: 0 = Monday .. 6 = Sunday.
pub open spec fn weekday_num(w: WeekdayRule) -> int {
    match w {
        WeekdayRule::Mon => 0,
        WeekdayRule::Tue => 1,
        WeekdayRule::Wed => 2,
        WeekdayRule::Thu => 3,
        WeekdayRule::Fri => 4,
        WeekdayRule::Sat => 5,
        WeekdayRule::Sun => 6,
    }
}

impl WeekdayRule {
    /// The rule day for a weekday index, 0 = Monday .. 6 = Sunday.
    pub fn from_weekday(value: i64) -> (r: Self)
        requires
            0 <= value <= 6,
        ensures
            weekday_num(r) == value,
    {
        match value {
            0 => WeekdayRule::Mon,
            1 => WeekdayRule::Tue,
            2 => WeekdayRule::Wed,
            3 => WeekdayRule::Thu,
            4 => WeekdayRule::Fri,
            5 => WeekdayRule::Sat,
            _ => WeekdayRule::Sun,
        }
    }

    /// The weekday index of this rule day, 0 = Monday .. 6 = Sunday.
    pub fn to_weekday(&self) -> (r: i64)
        ensures
            r == weekday_num(*self),
            0 <= r <= 6,
    {
        match self {
            WeekdayRule::Mon => 0,
            WeekdayRule::Tue => 1,
            WeekdayRule::Wed => 2,
            WeekdayRule::Thu => 3,
            WeekdayRule::Fri => 4,
            WeekdayRule::Sat => 5,
            WeekdayRule::Sun => 6,
        }
    }
}

#[derive(Clone, Debug)]
pub enum RecurrenceRule {
    Daily { interval: i64 },
    Weekly { interval: i64, weekdays: Option<Vec<WeekdayRule>> },
    Monthly { interval: i64 },
}

pub open spec fn interval_of(rule: RecurrenceRule) -> int {
    match rule {
        RecurrenceRule::Daily { interval } => interval as int,
        RecurrenceRule::Weekly { interval, .. } => interval as int,
        RecurrenceRule::Monthly { interval } => interval as int,
    }
}

/// The weekday indexes a weekly rule's given set allows.
pub open spec fn weekly_allowed(rule: RecurrenceRule, from: Date) -> Seq<i64> {
    match rule {
        RecurrenceRule::Weekly { weekdays: Some(ws), .. } =>
            ws@.map_values(|w: WeekdayRule| weekday_num(w) as i64),
        _ => seq![weekday_of(from) as i64],
    }
}

/// Whether the rule's arithmetic stays inside the supported calendar.
pub open spec fn rule_in_range(rule: RecurrenceRule, from: Date) -> bool {
    match rule {
        RecurrenceRule::Daily { interval } =>
            day_number(from) + interval <= MAX_DAY_NUMBER,
        RecurrenceRule::Weekly { interval, .. } =>
            day_number(from) <= TASK_DAY_LIMIT && interval <= 0x7fffffff,
        RecurrenceRule::Monthly { interval } =>
            from.year + (from.month - 1 + interval) / 12 < MAX_YEAR,
    }
}

fn vec_contains_i64(v: &Vec<i64>, x: i64) -> (b: bool)
    ensures
        b == v@.contains(x),
{
    let mut i: usize = 0;
    while i < v.len()
        invariant
            0 <= i <= v.len(),
            forall|k: int| 0 <= k < i ==> v@[k] != x,
        decreases v.len() - i,
    {
        if v[i] == x {
            return true;
        }
        i = i + 1;
    }
    false
}

/// The next occurrence after `from` under a recurrence rule.
///
/// Daily rules land exactly `interval` days later. A weekly rule with
/// a weekday set scans forward from the next day for a day whose
/// weekday is in the set and whose Monday-aligned week lies a whole
/// multiple of `interval` weeks past the anchor's, over a bounded
/// window, falling back to `interval` whole weeks; without a set it
/// advances `interval` whole weeks. Monthly rules advance `interval`
/// months, clamping to the end of a shorter target month.
#[verifier::rlimit(100)]
pub fn next_occurrence(rule: &RecurrenceRule, from: Date) -> (r: Date)
    requires
        date_valid(from),
        interval_of(*rule) >= 1,
        rule_in_range(*rule, from),
    ensures
        date_valid(r),
        match *rule {
            RecurrenceRule::Daily { interval } =>
                day_number(r) == day_number(from) + interval,
            RecurrenceRule::Weekly { interval, weekdays: None } =>
                day_number(r) == day_number(from) + 7 * interval,
            RecurrenceRule::Weekly { interval, weekdays: Some(_) } =>
                day_number(r) == day_number(from) + match aligned_offset(
                    weekly_allowed(*rule, from),
                    interval as int,
                    day_number(from),
                    1,
                ) {
                    Some(j) => j,
                    None => 7 * interval,
                },
            RecurrenceRule::Monthly { interval } =>
                r == add_months_spec(from, interval as int),
        },
{
    match rule {
        RecurrenceRule::Daily { interval } => add_days(&from, *interval),
        RecurrenceRule::Weekly { interval, weekdays: None } => add_days(&from, 7 * *interval),
        RecurrenceRule::Weekly { interval, weekdays: Some(ws) } => {
            let mut allowed: Vec<i64> = Vec::new();
            let mut i: usize = 0;
            while i < ws.len()
                invariant
                    0 <= i <= ws.len(),
                    allowed@ =~= ws@.take(i as int).map_values(
                        |w: WeekdayRule| weekday_num(w) as i64),
                decreases ws.len() - i,
            {
                allowed.push(ws[i].to_weekday());
                proof {
                    assert(allowed@ =~= ws@.take(i as int + 1).map_values(
                        |w: WeekdayRule| weekday_num(w) as i64));
                }
                i = i + 1;
            }
            proof {
                assert(ws@.take(ws@.len() as int) =~= ws@);
                assert(allowed@ == weekly_allowed(*rule, from));
            }
            aligned_scan(&from, &allowed, *interval)
        },
        RecurrenceRule::Monthly { interval } => add_months(&from, *interval),
    }
}

/// When the week-aligned scan finds an offset, that offset's day
/// qualifies: its weekday is allowed and its week is aligned.
proof fn lemma_aligned_offset_props(allowed: Seq<i64>, interval: int, base_dn: int, j: int)
    requires
        j >= 1,
    ensures
        aligned_offset(allowed, interval, base_dn, j) matches Some(o) ==> j <= o <= 500
            && allowed.contains((((base_dn + o) % 7) as i64)),
    decreases 501 - j,
{
    if 1 <= j <= 500 {
        lemma_aligned_offset_props(allowed, interval, base_dn, j + 1);
    }
}

/// If some offset in `[j, 500]` qualifies, the week-aligned scan finds
/// one.
proof fn lemma_aligned_offset_finds(
    allowed: Seq<i64>,
    interval: int,
    base_dn: int,
    j: int,
    jw: int,
)
    requires
        1 <= j <= jw <= 500,
        ((base_dn + jw) - (base_dn + jw) % 7 - (base_dn - base_dn % 7)) / 7 % interval == 0,
        allowed.contains((((base_dn + jw) % 7) as i64)),
    ensures
        aligned_offset(allowed, interval, base_dn, j) is Some,
    decreases 501 - j,
{
    if j < jw {
        let dn = base_dn + j;
        let wd = dn % 7;
        let week_diff = ((dn - wd) - (base_dn - base_dn % 7)) / 7;
        if !(week_diff % interval == 0 && allowed.contains((wd as i64))) {
            lemma_aligned_offset_finds(allowed, interval, base_dn, j + 1, jw);
        }
    }
}

/// If a weekly rule names at least one weekday and its interval fits
/// the scan window, the occurrence the engine picks falls on one of the
/// named weekdays.
#[verifier::rlimit(100)]
pub proof fn lemma_weekly_lands_on_allowed(rule: RecurrenceRule, from: Date, r: Date)
    requires
        date_valid(from),
        date_valid(r),
        rule matches RecurrenceRule::Weekly { weekdays: Some(_), .. },
        1 <= interval_of(rule) <= 70,
        weekly_allowed(rule, from).len() > 0,
        day_number(r) == day_number(from) + match aligned_offset(
            weekly_allowed(rule, from),
            interval_of(rule),
            day_number(from),
            1,
        ) {
            Some(j) => j,
            None => 7 * interval_of(rule),
        },
    ensures
        weekly_allowed(rule, from).contains(weekday_of(r) as i64),
{
    let allowed = weekly_allowed(rule, from);
    let i = interval_of(rule);
    let dn0 = day_number(from);
    let base = weekday_of(from);
    // every entry of an allowed set the engine builds is a weekday index
    assert(forall|k: int| 0 <= k < allowed.len() ==> 0 <= #[trigger] allowed[k] <= 6);
    let w = allowed[0] as int;
    assert(allowed.contains(allowed[0]));
    let q = dn0 / 7;
    assert(dn0 == 7 * q + base) by {
        vstd::arithmetic::div_mod::lemma_fundamental_div_mod(dn0, 7);
    }
    // a qualifying offset always exists in the window: the target
    // weekday later in the anchor's own week, or in the week exactly
    // `interval` weeks later
    let jw: int = if w > base { w - base } else { 7 * i + w - base };
    assert(1 <= jw <= 7 * i);
    let dnw = dn0 + jw;
    if w > base {
        vstd::arithmetic::div_mod::lemma_fundamental_div_mod_converse(dnw, 7, q, w);
        assert(dnw % 7 == w && dnw / 7 == q);
        assert((dnw - w) - (dn0 - base) == 0);
        vstd::arithmetic::div_mod::lemma_div_of0(7);
        assert((0int) / 7 == 0);
        vstd::arithmetic::div_mod::lemma_fundamental_div_mod_converse(0, i, 0, 0);
    } else {
        assert(dnw == 7 * (q + i) + w) by (nonlinear_arith)
            requires
                dnw == dn0 + jw,
                dn0 == 7 * q + base,
                jw == 7 * i + w - base,
        ;
        vstd::arithmetic::div_mod::lemma_fundamental_div_mod_converse(dnw, 7, q + i, w);
        assert(dnw % 7 == w);
        assert((dnw - w) - (dn0 - base) == 7 * i) by (nonlinear_arith)
            requires
                dnw == 7 * (q + i) + w,
                dn0 == 7 * q + base,
        ;
        assert((7 * i) / 7 == i) by {
            vstd::arithmetic::div_mod::lemma_fundamental_div_mod_converse(7 * i, 7, i, 0);
        }
        vstd::arithmetic::div_mod::lemma_fundamental_div_mod_converse(i, i, 1, 0);
        assert(i % i == 0);
    }
    assert(jw <= 500);
    lemma_aligned_offset_finds(allowed, i, dn0, 1, jw);
    let o = aligned_offset(allowed, i, dn0, 1)->Some_0;
    lemma_aligned_offset_props(allowed, i, dn0, 1);
    assert(allowed.contains((((dn0 + o) % 7) as i64)));
    assert(weekday_of(r) == (dn0 + o) % 7);
}

/// Largest anchor day number the task-based engine accepts; leaves room
/// for one hop at the largest stored interval.
pub const TASK_DAY_LIMIT: i64 = 3_600_000_000_000;

/// The rule day a trimmed weekday name stands for.
pub open spec fn weekday_of_name(s: Seq<char>) -> Option<WeekdayRule> {
    if s == "Mon"@ {
        Some(WeekdayRule::Mon)
    } else if s == "Tue"@ {
        Some(WeekdayRule::Tue)
    } else if s == "Wed"@ {
        Some(WeekdayRule::Wed)
    } else if s == "Thu"@ {
        Some(WeekdayRule::Thu)
    } else if s == "Fri"@ {
        Some(WeekdayRule::Fri)
    } else if s == "Sat"@ {
        Some(WeekdayRule::Sat)
    } else if s == "Sun"@ {
        Some(WeekdayRule::Sun)
    } else {
        None
    }
}

/// The recognized weekday names among the pieces, in order.
pub open spec fn days_of_pieces(ps: Seq<Seq<char>>) -> Seq<WeekdayRule>
    decreases ps.len(),
{
    if ps.len() == 0 {
        Seq::empty()
    } else {
        match weekday_of_name(ps[0]) {
            Some(d) => seq![d] + days_of_pieces(ps.skip(1)),
            None => days_of_pieces(ps.skip(1)),
        }
    }
}

/// The weekday set spelled by an optional comma-separated list.
pub open spec fn weekdays_csv_spec(v: Option<Seq<char>>) -> Seq<WeekdayRule> {
    match v {
        None => Seq::empty(),
        Some(s) => days_of_pieces(clean_tags_spec(split_commas(s))),
    }
}

fn name_to_day(s: &str) -> (r: Option<WeekdayRule>)
    ensures
        r == weekday_of_name(s@),
{
    if str_eq(s, "Mon") {
        Some(WeekdayRule::Mon)
    } else if str_eq(s, "Tue") {
        Some(WeekdayRule::Tue)
    } else if str_eq(s, "Wed") {
        Some(WeekdayRule::Wed)
    } else if str_eq(s, "Thu") {
        Some(WeekdayRule::Thu)
    } else if str_eq(s, "Fri") {
        Some(WeekdayRule::Fri)
    } else if str_eq(s, "Sat") {
        Some(WeekdayRule::Sat)
    } else if str_eq(s, "Sun") {
        Some(WeekdayRule::Sun)
    } else {
        None
    }
}

/// Reads a stored weekday list: split on commas, trim, keep the
/// recognized day names in order.
pub fn parse_weekdays_csv(value: Option<&str>) -> (r: Vec<WeekdayRule>)
    ensures
        r@ == weekdays_csv_spec(match value {
            Some(s) => Some(s@),
            None => None,
        }),
{
    let mut out: Vec<WeekdayRule> = Vec::new();
    if let Some(csv) = value {
        let pieces = parse_tags(csv);
        let ghost all = pieces.deep_view();
        let mut i: usize = 0;
        proof {
            assert(all.skip(0) =~= all);
            assert(out@ + days_of_pieces(all) =~= days_of_pieces(all));
        }
        while i < pieces.len()
            invariant
                0 <= i <= pieces.len(),
                pieces.deep_view() == all,
                days_of_pieces(all) == out@ + days_of_pieces(all.skip(i as int)),
            decreases pieces.len() - i,
        {
            let ghost rest = all.skip(i as int);
            proof {
                assert(rest[0] == all[i as int]);
                assert(all[i as int] == pieces@[i as int]@);
                assert(rest.skip(1) =~= all.skip(i as int + 1));
            }
            match name_to_day(pieces[i].as_str()) {
                Some(d) => {
                    let ghost old_out = out@;
                    out.push(d);
                    proof {
                        assert(out@ + days_of_pieces(rest.skip(1))
                            =~= old_out + (seq![d] + days_of_pieces(rest.skip(1))));
                    }
                },
                None => {},
            }
            i = i + 1;
        }
        proof {
            assert(all.skip(pieces@.len() as int) =~= Seq::<Seq<char>>::empty());
            assert(out@ + days_of_pieces(Seq::empty()) =~= out@);
        }
    }
    out
}

/// The clamped recurrence interval of a stored task: at least 1, and 1
/// when absent.
pub open spec fn task_interval(t: crate::model::TaskV) -> int {
    let v = match t.recurrence_interval {
        Some(x) => x,
        None => 1,
    };
    if v >= 1 { v } else { 1 }
}

/// The week-aligned scan of the task engine: the first offset `j` in
/// `start..=500` whose day falls in an allowed weekday and in a week
/// that is a whole multiple of `interval` weeks past the anchor's week.
pub open spec fn aligned_offset(allowed: Seq<i64>, interval: int, base_dn: int, j: int)
    -> Option<int>
    decreases 501 - j,
{
    if j > 500 || j < 1 {
        None
    } else {
        let dn = base_dn + j;
        let wd = dn % 7;
        let week_diff = ((dn - wd) - (base_dn - base_dn % 7)) / 7;
        if week_diff % interval == 0 && allowed.contains(wd as i64) {
            Some(j)
        } else {
            aligned_offset(allowed, interval, base_dn, j + 1)
        }
    }
}

pub open spec fn known_recurrence_type(t: crate::model::TaskV) -> bool {
    t.recurrence_type == Some("daily"@) || t.recurrence_type == Some("weekly"@)
        || t.recurrence_type == Some("monthly"@)
}

/// Where the next occurrence of a stored task lands, relative to the
/// anchor `from`.
pub open spec fn task_next_ok(t: crate::model::TaskV, from: Date, r: Date) -> bool {
    let interval = task_interval(t);
    let days = weekdays_csv_spec(t.recurrence_weekdays);
    &&& date_valid(r)
    &&& t.recurrence_type == Some("daily"@) ==> day_number(r) == day_number(from) + interval
    &&& t.recurrence_type == Some("weekly"@) && days.len() == 0
        ==> day_number(r) == day_number(from) + 7 * interval
    &&& t.recurrence_type == Some("weekly"@) && days.len() > 0
        ==> day_number(r) == day_number(from) + match aligned_offset(
            days.map_values(|w: WeekdayRule| weekday_num(w) as i64),
            interval,
            day_number(from),
            1,
        ) {
            Some(j) => j,
            None => 7 * interval,
        }
    &&& t.recurrence_type == Some("monthly"@) ==> r == add_months_spec(from, interval)
    &&& !known_recurrence_type(t) ==> r == from
    &&& known_recurrence_type(t) ==> day_number(r) > day_number(from)
}

/// The next occurrence date of a recurring task after `from`, under the
/// task's stored recurrence fields. Tasks without a recognized
/// recurrence type stay where they are.
#[verifier::rlimit(100)]
#[verifier::spinoff_prover]
pub fn next_occurrence_date(task: &Task, from: Date) -> (r: Date)
    requires
        date_valid(from),
        day_number(from) <= TASK_DAY_LIMIT,
    ensures
        task_next_ok(task@, from, r),
{
    let interval_32: i32 = match task.recurrence_interval {
        Some(x) => if x >= 1 { x } else { 1 },
        None => 1,
    };
    let interval: i64 = interval_32 as i64;
    proof {
        assert(interval == task_interval(task@));
        lemma_day_number_year_bound(from);
        reveal_strlit("daily");
        reveal_strlit("weekly");
        reveal_strlit("monthly");
        reveal_strlit("");
        assert("daily"@.len() == 5 && "weekly"@.len() == 6 && "monthly"@.len() == 7
            && ""@.len() == 0);
    }
    let rtype = match &task.recurrence_type {
        Some(t) => t.as_str(),
        None => "",
    };
    if str_eq(rtype, "daily") && task.recurrence_type.is_some() {
        let r = add_days(&from, interval);
        proof {
            lemma_day_number_year_bound(r);
        }
        r
    } else if str_eq(rtype, "weekly") && task.recurrence_type.is_some() {
        let csv: Option<&str> = match &task.recurrence_weekdays {
            Some(s) => Some(s.as_str()),
            None => None,
        };
        let days = parse_weekdays_csv(csv);
        if days.len() == 0 {
            add_days(&from, 7 * interval)
        } else {
            let mut allowed: Vec<i64> = Vec::new();
            let mut i: usize = 0;
            while i < days.len()
                invariant
                    0 <= i <= days.len(),
                    allowed@ =~= days@.take(i as int).map_values(
                        |w: WeekdayRule| weekday_num(w) as i64),
                decreases days.len() - i,
            {
                allowed.push(days[i].to_weekday());
                proof {
                    assert(allowed@ =~= days@.take(i as int + 1).map_values(
                        |w: WeekdayRule| weekday_num(w) as i64));
                }
                i = i + 1;
            }
            proof {
                assert(days@.take(days@.len() as int) =~= days@);
                lemma_aligned_offset_ge(allowed@, interval as int, day_number(from), 1);
            }
            aligned_scan(&from, &allowed, interval)
        }
    } else if str_eq(rtype, "monthly") && task.recurrence_type.is_some() {
        proof {
            assert(365 * (from.year - 1) <= TASK_DAY_LIMIT);
            assert((from.month - 1 + interval) <= 11 + 0x7fffffff);
            vstd::arithmetic::div_mod::lemma_div_is_ordered(
                from.month - 1 + interval, (11 + 0x7fffffff) as int, 12);
            vstd::arithmetic::div_mod::lemma_div_pos_is_pos(from.month - 1 + interval, 12);
        }
        let r = add_months(&from, interval);
        proof {
            lemma_months_advance(from, interval as int);
        }
        r
    } else {
        from
    }
}

/// When the week-aligned scan finds an offset, it is at or past where
/// it started.
proof fn lemma_aligned_offset_ge(allowed: Seq<i64>, interval: int, base_dn: int, j: int)
    requires
        j >= 1,
    ensures
        aligned_offset(allowed, interval, base_dn, j) matches Some(o) ==> j <= o <= 500,
    decreases 501 - j,
{
    if 1 <= j <= 500 {
        lemma_aligned_offset_ge(allowed, interval, base_dn, j + 1);
    }
}

/// Advancing at least one month lands strictly later in the calendar.
proof fn lemma_months_advance(d: Date, k: int)
    requires
        date_valid(d),
        k >= 1,
        d.year + (d.month - 1 + k) / 12 < MAX_YEAR,
        date_valid(add_months_spec(d, k)),
    ensures
        day_number(add_months_spec(d, k)) > day_number(d),
{
    let r = add_months_spec(d, k);
    let t = d.month - 1 + k;
    vstd::arithmetic::div_mod::lemma_fundamental_div_mod(t, 12);
    vstd::arithmetic::div_mod::lemma_div_pos_is_pos(t, 12);
    assert(r.year == d.year + t / 12 && r.month == t % 12 + 1);
    if t / 12 == 0 {
        assert(r.year == d.year && r.month > d.month);
        lemma_day_number_increasing(d, Date { year: r.year, month: r.month, day: 1i64 });
        assert(day_number(Date { year: r.year, month: r.month, day: 1i64 })
            <= day_number(r));
    } else {
        assert(r.year > d.year);
        lemma_day_number_increasing(d, Date { year: r.year, month: r.month, day: 1i64 });
        assert(day_number(Date { year: r.year, month: r.month, day: 1i64 })
            <= day_number(r));
    }
}

/// Walks the week-aligned scan: up to 500 days forward, a day counts
/// only if its weekday is allowed and its Monday-aligned week is a
/// whole multiple of `interval` weeks past the anchor's; falls back to
/// `interval` whole weeks.
#[verifier::rlimit(60)]
fn aligned_scan(from: &Date, allowed: &Vec<i64>, interval: i64) -> (r: Date)
    requires
        date_valid(*from),
        1 <= interval <= 0x7fffffff,
        day_number(*from) <= TASK_DAY_LIMIT,
    ensures
        date_valid(r),
        day_number(r) == day_number(*from) + match aligned_offset(
            allowed@,
            interval as int,
            day_number(*from),
            1,
        ) {
            Some(j) => j,
            None => 7 * interval,
        },
{
    let base_dn = day_number_of(from);
    let base_ws = base_dn - base_dn % 7;
    let mut j: i64 = 1;
    while j <= 500
        invariant
            1 <= j <= 501,
            base_dn == day_number(*from),
            0 <= base_dn <= TASK_DAY_LIMIT,
            base_ws == base_dn - base_dn % 7,
            date_valid(*from),
            1 <= interval <= 0x7fffffff,
            aligned_offset(allowed@, interval as int, base_dn as int, 1)
                == aligned_offset(allowed@, interval as int, base_dn as int, j as int),
        decreases 501 - j,
    {
        let dn = base_dn + j;
        let wd = dn % 7;
        let ws = dn - wd;
        let week_diff = (ws - base_ws) / 7;
        if week_diff % interval == 0 && vec_contains_i64(allowed, wd) {
            proof {
                assert(aligned_offset(allowed@, interval as int, base_dn as int, j as int)
                    == Some(j as int));
            }
            return add_days(from, j);
        }
        j = j + 1;
    }
    add_days(from, 7 * interval)
}

} // verus!

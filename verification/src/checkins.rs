//! The check-in repository: people, check-ins, and the due-reminder
//! scanner.

use vstd::prelude::*;
use crate::dates::{
    date_lt, date_of_text, date_text_valid, date_valid, minute_of_text, time_text_valid, Date,
};
use crate::model::{
    normalize_optional_text, normalize_optional_text_spec, normalize_relationship,
    normalize_reminder_state, relationship_allowed, reminder_state_spec, str_eq, Checkin,
    CheckinInput, CheckinPerson, CheckinPersonInput, CheckinPersonV, CheckinReminder, CheckinV,
};
use crate::store::{
    checkin_row_le, checkins_table, delete_checkin_row, delete_person_row, insert_checkin_row,
    insert_person_row, new_uuid, notes_state, now_rfc3339, people_table, schema_state,
    select_all_checkins, select_all_people, task_state, update_checkin_row,
};
use crate::tags::{ascii_lower, seq_le, trim_spec, trim_text};

verus! {

/// Every listed person is stored, every stored person listed once, in
/// case-folded name order with creation stamps breaking ties.
pub open spec fn people_listing_ok(
    m: Map<Seq<char>, CheckinPersonV>,
    v: Seq<CheckinPerson>,
) -> bool {
    &&& forall|i: int| 0 <= i < v.len() ==> #[trigger] m.contains_pair(v[i].id@, v[i]@)
    &&& forall|k: Seq<char>| #[trigger] m.dom().contains(k) ==> exists|i: int| 0 <= i < v.len()
        && (#[trigger] v[i]).id@ == k
    &&& forall|i: int, j: int|
        #![trigger v[i], v[j]]
        0 <= i < j < v.len() ==> v[i].id@ != v[j].id@ && (seq_le(
            ascii_lower(v[i].name@),
            ascii_lower(v[j].name@),
        ) || (ascii_lower(v[i].name@) == ascii_lower(v[j].name@) && seq_le(
            v[i].created_at@,
            v[j].created_at@,
        )))
}

/// Lists every check-in person, by case-folded name.
pub fn list_checkin_people(conn: &rusqlite::Connection) -> (r: Result<Vec<CheckinPerson>, String>)
    ensures
        r matches Ok(v) ==> people_listing_ok(people_table(*conn), v@),
{
    let v = select_all_people(conn)?;
    proof {
        assert forall|i: int, j: int|
            #![trigger v@[i], v@[j]]
            0 <= i < j < v@.len() implies v@[i].id@ != v@[j].id@ && (seq_le(
            ascii_lower(v@[i].name@),
            ascii_lower(v@[j].name@),
        ) || (ascii_lower(v@[i].name@) == ascii_lower(v@[j].name@) && seq_le(
            v@[i].created_at@,
            v@[j].created_at@,
        ))) by {
            assert(v@[i]@.name == v@[i].name@ && v@[j]@.name == v@[j].name@);
        }
    }
    Ok(v)
}

/// Creates a check-in person; a blank name or an unknown relationship
/// is rejected before any write.
pub fn create_checkin_person(
    conn: &mut rusqlite::Connection,
    input: CheckinPersonInput,
) -> (r: Result<CheckinPerson, String>)
    ensures
        task_state(*final(conn)) == task_state(*old(conn)),
        notes_state(*final(conn)) == notes_state(*old(conn)),
        schema_state(*final(conn)) == schema_state(*old(conn)),
        checkins_table(*final(conn)) == checkins_table(*old(conn)),
        trim_spec(input.name@).len() == 0 ==> r is Err,
        !relationship_allowed(trim_spec(input.relationship@)) ==> r is Err,
        r matches Ok(p) ==> {
            &&& trim_spec(input.name@).len() > 0
            &&& p@.name == trim_spec(input.name@)
            &&& p@.relationship == trim_spec(input.relationship@)
            &&& relationship_allowed(p@.relationship)
            &&& !people_table(*old(conn)).dom().contains(p.id@)
            &&& people_table(*final(conn)) == people_table(*old(conn)).insert(p.id@, p@)
        },
        r is Err ==> people_table(*final(conn)) == people_table(*old(conn)),
{
    let name = trim_text(input.name.as_str());
    if name.as_str().is_empty() {
        return Err(String::from_str("Name is required"));
    }
    let relationship = normalize_relationship(input.relationship.as_str())?;
    let now = now_rfc3339();
    let person = CheckinPerson {
        id: new_uuid(),
        name,
        relationship,
        created_at: now.clone(),
        updated_at: now,
    };
    insert_person_row(conn, &person)?;
    Ok(person)
}

/// Deletes a person; their check-ins go with them.
pub fn delete_checkin_person(conn: &mut rusqlite::Connection, id: &String) -> (r: Result<
    (),
    String,
>)
    ensures
        task_state(*final(conn)) == task_state(*old(conn)),
        notes_state(*final(conn)) == notes_state(*old(conn)),
        schema_state(*final(conn)) == schema_state(*old(conn)),
        r is Ok ==> people_table(*final(conn)) == people_table(*old(conn)).remove(id@),
        r is Ok ==> checkins_table(*final(conn)) == crate::store::retain_values(
            checkins_table(*old(conn)),
            |c: CheckinV| c.person_id != id@,
        ),
        r is Err ==> people_table(*final(conn)) == people_table(*old(conn)) && checkins_table(
            *final(conn),
        ) == checkins_table(*old(conn)),
{
    delete_person_row(conn, id)
}

/// The views of listed check-ins.
pub open spec fn checkin_views(v: Seq<Checkin>) -> Seq<CheckinV> {
    v.map_values(|c: Checkin| c@)
}

pub open spec fn sel_any_checkin() -> spec_fn(CheckinV) -> bool {
    |c: CheckinV| true
}

pub open spec fn sel_of_person(pid: Seq<char>) -> spec_fn(CheckinV) -> bool {
    |c: CheckinV| c.person_id == pid
}

/// Every listed check-in is stored and matches the selection, every
/// stored one matching it is listed once, newest check-in date first.
pub open spec fn checkin_listing_ok(
    m: Map<Seq<char>, CheckinV>,
    vs: Seq<CheckinV>,
    pred: spec_fn(CheckinV) -> bool,
) -> bool {
    &&& forall|i: int| 0 <= i < vs.len() ==> #[trigger] m.contains_pair(vs[i].id, vs[i]) && pred(
        vs[i],
    )
    &&& forall|k: Seq<char>| #[trigger] m.dom().contains(k) && pred(m[k]) ==> exists|i: int|
        0 <= i < vs.len() && (#[trigger] vs[i]).id == k
    &&& forall|i: int, j: int|
        #![trigger vs[i], vs[j]]
        0 <= i < j < vs.len() ==> vs[i].id != vs[j].id && checkin_row_le(vs[i], vs[j])
}

proof fn lemma_checkin_listing(
    m: Map<Seq<char>, CheckinV>,
    rvs: Seq<CheckinV>,
    pred: spec_fn(CheckinV) -> bool,
)
    requires
        forall|i: int| 0 <= i < rvs.len() ==> #[trigger] m.contains_pair(rvs[i].id, rvs[i]),
        forall|k: Seq<char>| #[trigger] m.dom().contains(k) ==> exists|i: int| 0 <= i < rvs.len()
            && (#[trigger] rvs[i]).id == k,
        forall|i: int, j: int|
            #![trigger rvs[i], rvs[j]]
            0 <= i < j < rvs.len() ==> rvs[i].id != rvs[j].id && checkin_row_le(rvs[i], rvs[j]),
    ensures
        checkin_listing_ok(m, rvs.filter(pred), pred),
{
    broadcast use vstd::seq_lib::group_filter_ensures;

    let out = rvs.filter(pred);
    assert forall|i: int| 0 <= i < out.len() implies #[trigger] m.contains_pair(out[i].id, out[i])
        && pred(out[i]) by {
        crate::seqs::lemma_filter_elem(rvs, pred, i);
        let w = choose|w: int| 0 <= w < rvs.len() && rvs[w] == out[i];
        rvs.lemma_filter_pred(pred, i);
    }
    assert forall|k: Seq<char>| #[trigger] m.dom().contains(k) && pred(m[k]) implies exists|i: int|
        0 <= i < out.len() && (#[trigger] out[i]).id == k by {
        let w = choose|w: int| 0 <= w < rvs.len() && (#[trigger] rvs[w]).id == k;
        assert(m.contains_pair(rvs[w].id, rvs[w]));
        assert(pred(rvs[w]));
        crate::seqs::lemma_filter_keeps(rvs, pred, w);
        let i = choose|i: int| 0 <= i < out.len() && out[i] == rvs[w];
        assert(out[i].id == k);
    }
    let le = |a: CheckinV, b: CheckinV| a.id != b.id && checkin_row_le(a, b);
    assert forall|i: int, j: int| 0 <= i < j < rvs.len() implies #[trigger] le(rvs[i], rvs[j]) by {
        assert(rvs[i].id != rvs[j].id && checkin_row_le(rvs[i], rvs[j]));
    }
    crate::seqs::lemma_filter_sorted(rvs, pred, le);
    assert forall|i: int, j: int|
        #![trigger out[i], out[j]]
        0 <= i < j < out.len() implies out[i].id != out[j].id && checkin_row_le(out[i], out[j]) by {
        assert(le(out[i], out[j]));
    }
}

proof fn lemma_select_checkin_views(m: Map<Seq<char>, CheckinV>, rows: Seq<Checkin>)
    requires
        forall|i: int| 0 <= i < rows.len() ==> #[trigger] m.contains_pair(rows[i].id@, rows[i]@),
        forall|k: Seq<char>| #[trigger] m.dom().contains(k) ==> exists|i: int| 0 <= i < rows.len()
            && #[trigger] rows[i].id@ == k,
        forall|i: int, j: int|
            #![trigger rows[i].id@, rows[j].id@]
            0 <= i < j < rows.len() ==> rows[i].id@ != rows[j].id@,
        forall|i: int, j: int|
            #![trigger rows[i]@, rows[j]@]
            0 <= i < j < rows.len() ==> checkin_row_le(rows[i]@, rows[j]@),
    ensures
        forall|i: int| 0 <= i < checkin_views(rows).len() ==> #[trigger] m.contains_pair(
            checkin_views(rows)[i].id,
            checkin_views(rows)[i],
        ),
        forall|k: Seq<char>| #[trigger] m.dom().contains(k) ==> exists|i: int|
            0 <= i < checkin_views(rows).len() && (#[trigger] checkin_views(rows)[i]).id == k,
        forall|i: int, j: int|
            #![trigger checkin_views(rows)[i], checkin_views(rows)[j]]
            0 <= i < j < checkin_views(rows).len() ==> checkin_views(rows)[i].id
                != checkin_views(rows)[j].id && checkin_row_le(
                checkin_views(rows)[i],
                checkin_views(rows)[j],
            ),
{
    let rvs = checkin_views(rows);
    assert forall|i: int| 0 <= i < rvs.len() implies #[trigger] m.contains_pair(
        rvs[i].id,
        rvs[i],
    ) by {
        assert(rvs[i] == rows[i]@);
        assert(rows[i].id@ == rows[i]@.id);
    }
    assert forall|k: Seq<char>| #[trigger] m.dom().contains(k) implies exists|i: int|
        0 <= i < rvs.len() && (#[trigger] rvs[i]).id == k by {
        let w = choose|w: int| 0 <= w < rows.len() && #[trigger] rows[w].id@ == k;
        assert(rvs[w].id == k);
    }
    assert forall|i: int, j: int|
        #![trigger rvs[i], rvs[j]]
        0 <= i < j < rvs.len() implies rvs[i].id != rvs[j].id && checkin_row_le(
        rvs[i],
        rvs[j],
    ) by {
        assert(rows[i].id@ != rows[j].id@);
        assert(checkin_row_le(rows[i]@, rows[j]@));
        assert(rows[i].id@ == rows[i]@.id && rows[j].id@ == rows[j]@.id);
    }
}

/// Lists check-ins, all of them or one person's, newest first.
#[verifier::rlimit(100)]
pub fn list_checkins(conn: &rusqlite::Connection, person_id: Option<&str>) -> (r: Result<
    Vec<Checkin>,
    String,
>)
    ensures
        r matches Ok(v) ==> match person_id {
            Some(pid) => checkin_listing_ok(
                checkins_table(*conn),
                checkin_views(v@),
                sel_of_person(pid@),
            ),
            None => checkin_listing_ok(
                checkins_table(*conn),
                checkin_views(v@),
                sel_any_checkin(),
            ),
        },
{
    let rows = select_all_checkins(conn)?;
    proof {
        lemma_select_checkin_views(checkins_table(*conn), rows@);
    }
    match person_id {
        None => {
            proof {
                lemma_checkin_listing(checkins_table(*conn), checkin_views(rows@),
                    sel_any_checkin());
                assert(checkin_views(rows@).filter(sel_any_checkin()) =~= checkin_views(rows@))
                    by {
                    crate::seqs::lemma_filter_all_generic(checkin_views(rows@), sel_any_checkin());
                }
            }
            Ok(rows)
        },
        Some(pid) => {
            let ghost fp = sel_of_person(pid@);
            let mut out: Vec<Checkin> = Vec::new();
            let mut i: usize = 0;
            proof {
                assert(checkin_views(rows@).take(0) =~= Seq::<CheckinV>::empty());
                assert(checkin_views(out@) =~= checkin_views(rows@).take(0).filter(fp)) by {
                    reveal(Seq::filter);
                }
            }
            while i < rows.len()
                invariant
                    0 <= i <= rows.len(),
                    fp == sel_of_person(pid@),
                    checkin_views(out@) == checkin_views(rows@).take(i as int).filter(fp),
                decreases rows.len() - i,
            {
                proof {
                    assert(checkin_views(rows@).take(i as int + 1) =~= checkin_views(
                        rows@).take(i as int).push(rows@[i as int]@));
                    crate::seqs::lemma_filter_push(checkin_views(rows@).take(i as int),
                        rows@[i as int]@, fp);
                }
                if str_eq(rows[i].person_id.as_str(), pid) {
                    let d2 = rows[i].duplicate();
                    out.push(d2);
                    proof {
                        assert(checkin_views(out@) =~= checkin_views(rows@).take(
                            i as int).filter(fp).push(rows@[i as int]@));
                    }
                }
                i = i + 1;
            }
            proof {
                assert(checkin_views(rows@).take(rows@.len() as int) =~= checkin_views(rows@));
                lemma_checkin_listing(checkins_table(*conn), checkin_views(rows@), fp);
            }
            Ok(out)
        },
    }
}

/// Reads one check-in by id; a missing id is a failed lookup.
pub fn get_checkin(conn: &rusqlite::Connection, id: &str) -> (r: Result<Checkin, String>)
    ensures
        r matches Ok(c) ==> checkins_table(*conn).contains_pair(id@, c@) && c.id@ == id@,
{
    let rows = select_all_checkins(conn)?;
    let mut i: usize = 0;
    while i < rows.len()
        invariant
            0 <= i <= rows.len(),
            forall|w: int| 0 <= w < rows@.len() ==> #[trigger] checkins_table(
                *conn,
            ).contains_pair(rows@[w].id@, rows@[w]@),
        decreases rows.len() - i,
    {
        if str_eq(rows[i].id.as_str(), id) {
            let c = rows[i].duplicate();
            return Ok(c);
        }
        i = i + 1;
    }
    Err(String::from_str("Checkin not found"))
}

/// Whether a stored person carries the given id.
fn person_exists(conn: &rusqlite::Connection, pid: &String) -> (r: Result<bool, String>)
    ensures
        r matches Ok(b) ==> b == people_table(*conn).dom().contains(pid@),
{
    let people = select_all_people(conn)?;
    let mut i: usize = 0;
    while i < people.len()
        invariant
            0 <= i <= people.len(),
            forall|w: int| 0 <= w < people@.len() ==> #[trigger] people_table(
                *conn,
            ).contains_pair(people@[w].id@, people@[w]@),
            forall|k: Seq<char>| #[trigger] people_table(*conn).dom().contains(k)
                ==> exists|w: int| 0 <= w < people@.len() && #[trigger] people@[w].id@ == k,
            forall|w: int| 0 <= w < i ==> (#[trigger] people@[w]).id@ != pid@,
        decreases people.len() - i,
    {
        if str_eq(people[i].id.as_str(), pid.as_str()) {
            proof {
                assert(people_table(*conn).contains_pair(people@[i as int].id@,
                    people@[i as int]@));
            }
            return Ok(true);
        }
        i = i + 1;
    }
    proof {
        if people_table(*conn).dom().contains(pid@) {
            let w = choose|w: int| 0 <= w < people@.len() && #[trigger] people@[w].id@ == pid@;
            assert(false);
        }
    }
    Ok(false)
}

/// The check-in fields every write validates and normalizes: dates and
/// times must parse, free text is trimmed with blanks dropped, and the
/// reminder state is derived.
pub open spec fn checkin_write_ok(c: CheckinV, inp: crate::model::CheckinInputV) -> bool {
    &&& c.person_id == trim_spec(inp.person_id)
    &&& c.checkin_date == trim_spec(inp.checkin_date)
    &&& date_text_valid(c.checkin_date)
    &&& c.discussion == normalize_optional_text_spec(inp.discussion)
    &&& c.notes == normalize_optional_text_spec(inp.notes)
    &&& c.action_items == normalize_optional_text_spec(inp.action_items)
    &&& c.next_checkin_date == normalize_optional_text_spec(inp.next_checkin_date)
    &&& c.reminder_enabled == inp.reminder_enabled
    &&& c.reminder_time == normalize_optional_text_spec(inp.reminder_time)
    &&& c.reminder_state == Some(reminder_state_spec(
        inp.reminder_enabled,
        normalize_optional_text_spec(inp.next_checkin_date) is Some,
        normalize_optional_text_spec(inp.reminder_time) is Some,
    ))
    &&& (inp.next_checkin_date matches Some(d) ==> date_text_valid(trim_spec(d)))
    &&& (inp.reminder_time matches Some(t) ==> time_text_valid(trim_spec(t)))
}

/// Runs the shared validation and builds the row fields; gives back the
/// normalized pieces.
#[verifier::rlimit(100)]
fn build_checkin(
    input: &CheckinInput,
    id: String,
    created_at: String,
) -> (r: Result<Checkin, String>)
    ensures
        r matches Ok(c) ==> checkin_write_ok(c@, input@) && c.id@ == id@ && c@.created_at
            == created_at@ && c@.updated_at == created_at@,
{
    let person_id = trim_text(input.person_id.as_str());
    let checkin_date = trim_text(input.checkin_date.as_str());
    let parsed = crate::dates::parse_date(checkin_date.as_str());
    if parsed.is_err() {
        return Err(String::from_str("invalid date, expected YYYY-MM-DD"));
    }
    match &input.next_checkin_date {
        Some(next) => {
            let t = trim_text(next.as_str());
            if crate::dates::parse_date(t.as_str()).is_err() {
                return Err(String::from_str("invalid date, expected YYYY-MM-DD"));
            }
        },
        None => {},
    }
    match &input.reminder_time {
        Some(rt) => {
            let t = trim_text(rt.as_str());
            if crate::dates::parse_time(t.as_str()).is_err() {
                return Err(String::from_str("invalid time, expected HH:MM"));
            }
        },
        None => {},
    }
    let discussion = normalize_optional_text(crate::model::clone_opt_string(&input.discussion));
    let notes = normalize_optional_text(crate::model::clone_opt_string(&input.notes));
    let action_items = normalize_optional_text(crate::model::clone_opt_string(
        &input.action_items,
    ));
    let next_checkin_date = normalize_optional_text(crate::model::clone_opt_string(
        &input.next_checkin_date,
    ));
    let reminder_time = normalize_optional_text(crate::model::clone_opt_string(
        &input.reminder_time,
    ));
    let reminder_state = normalize_reminder_state(
        input.reminder_enabled,
        match &next_checkin_date {
            Some(s) => Some(s.as_str()),
            None => None,
        },
        match &reminder_time {
            Some(s) => Some(s.as_str()),
            None => None,
        },
    );
    let now = created_at;
    Ok(Checkin {
        id,
        person_id,
        checkin_date,
        discussion,
        notes,
        action_items,
        next_checkin_date,
        reminder_enabled: input.reminder_enabled,
        reminder_time,
        reminder_state,
        created_at: now.clone(),
        updated_at: now,
    })
}

/// Creates a check-in after validating its dates, time, and person.
pub fn create_checkin(conn: &mut rusqlite::Connection, input: CheckinInput) -> (r: Result<
    Checkin,
    String,
>)
    ensures
        task_state(*final(conn)) == task_state(*old(conn)),
        notes_state(*final(conn)) == notes_state(*old(conn)),
        schema_state(*final(conn)) == schema_state(*old(conn)),
        people_table(*final(conn)) == people_table(*old(conn)),
        r matches Ok(c) ==> {
            &&& checkin_write_ok(c@, input@)
            &&& people_table(*old(conn)).dom().contains(trim_spec(input.person_id@))
            &&& !checkins_table(*old(conn)).dom().contains(c.id@)
            &&& checkins_table(*final(conn)) == checkins_table(*old(conn)).insert(c.id@, c@)
            &&& c@.created_at == c@.updated_at
        },
        r is Err ==> checkins_table(*final(conn)) == checkins_table(*old(conn)),
{
    let id = new_uuid();
    let now = now_rfc3339();
    let row = build_checkin(&input, id, now)?;
    if !person_exists(conn, &row.person_id)? {
        return Err(String::from_str("Person not found"));
    }
    insert_checkin_row(conn, &row)?;
    Ok(row)
}

/// Replaces a check-in's fields after the same validation; the check-in
/// must exist.
pub fn update_checkin(conn: &mut rusqlite::Connection, id: &str, input: CheckinInput) -> (r:
    Result<Checkin, String>)
    ensures
        task_state(*final(conn)) == task_state(*old(conn)),
        notes_state(*final(conn)) == notes_state(*old(conn)),
        schema_state(*final(conn)) == schema_state(*old(conn)),
        people_table(*final(conn)) == people_table(*old(conn)),
        r matches Ok(c) ==> {
            &&& checkin_write_ok(c@, input@)
            &&& people_table(*old(conn)).dom().contains(trim_spec(input.person_id@))
            &&& checkins_table(*old(conn)).dom().contains(id@)
            &&& c.id@ == id@
            &&& c@.created_at == checkins_table(*old(conn))[id@].created_at
            &&& checkins_table(*final(conn)) == checkins_table(*old(conn)).insert(id@, c@)
        },
        r is Err ==> checkins_table(*final(conn)) == checkins_table(*old(conn)),
{
    let existing = get_checkin(conn, id)?;
    let row0 = build_checkin(&input, existing.id, existing.created_at)?;
    if !person_exists(conn, &row0.person_id)? {
        return Err(String::from_str("Person not found"));
    }
    let mut row = row0;
    row.updated_at = now_rfc3339();
    update_checkin_row(conn, &row)?;
    Ok(row)
}

/// Deletes a check-in.
pub fn delete_checkin(conn: &mut rusqlite::Connection, id: &String) -> (r: Result<(), String>)
    ensures
        task_state(*final(conn)) == task_state(*old(conn)),
        notes_state(*final(conn)) == notes_state(*old(conn)),
        schema_state(*final(conn)) == schema_state(*old(conn)),
        people_table(*final(conn)) == people_table(*old(conn)),
        r is Ok ==> checkins_table(*final(conn)) == checkins_table(*old(conn)).remove(id@),
        r is Err ==> checkins_table(*final(conn)) == checkins_table(*old(conn)),
{
    delete_checkin_row(conn, id)
}

/// A check-in the scanner considers: reminding is on, a date and time
/// are set, and the reminder has not been sent.
pub open spec fn reminder_candidate(c: CheckinV) -> bool {
    &&& c.reminder_enabled
    &&& c.next_checkin_date is Some
    &&& c.reminder_time is Some
    &&& c.reminder_state != Some("sent"@)
}

/// Whether a candidate's reminder is due at the given local day and
/// minute.
pub open spec fn reminder_due(c: CheckinV, day: Date, minute: int) -> bool {
    &&& date_text_valid(c.next_checkin_date->Some_0)
    &&& time_text_valid(c.reminder_time->Some_0)
    &&& (date_lt(date_of_text(c.next_checkin_date->Some_0), day) || (date_of_text(
        c.next_checkin_date->Some_0,
    ) == day && minute_of_text(c.reminder_time->Some_0) <= minute))
}

/// Computes the check-ins whose reminder is due at the given local day
/// and minute of the day. Candidates whose stored date or time does not
/// parse make the whole scan fail; candidates whose person is gone are
/// skipped, as an inner join on the person drops them.
#[verifier::rlimit(100)]
#[verifier::spinoff_prover]
pub fn list_due_checkin_reminders(
    conn: &rusqlite::Connection,
    day: &Date,
    minute: i64,
) -> (r: Result<Vec<CheckinReminder>, String>)
    requires
        date_valid(*day),
        0 <= minute < 1440,
    ensures
        r matches Ok(v) ==> {
            &&& forall|i: int| 0 <= i < v@.len() ==> checkins_table(*conn).dom().contains(
                (#[trigger] v@[i]).checkin_id@,
            ) && reminder_candidate(checkins_table(*conn)[v@[i].checkin_id@]) && reminder_due(
                checkins_table(*conn)[v@[i].checkin_id@],
                *day,
                minute as int,
            ) && Some(v@[i].next_checkin_date@) == checkins_table(
                *conn,
            )[v@[i].checkin_id@].next_checkin_date && Some(v@[i].reminder_time@)
                == checkins_table(*conn)[v@[i].checkin_id@].reminder_time
            &&& forall|k: Seq<char>| #[trigger] checkins_table(*conn).dom().contains(k)
                && reminder_candidate(checkins_table(*conn)[k]) && reminder_due(
                checkins_table(*conn)[k],
                *day,
                minute as int,
            ) && people_table(*conn).dom().contains(checkins_table(*conn)[k].person_id)
                ==> exists|i: int| 0 <= i < v@.len() && (#[trigger] v@[i]).checkin_id@ == k
        },
{
    proof {
        reveal_strlit("sent");
    }
    let rows = select_all_checkins(conn)?;
    let people = select_all_people(conn)?;
    let ghost m = checkins_table(*conn);
    let ghost pm = people_table(*conn);
    let mut out: Vec<CheckinReminder> = Vec::new();
    let mut i: usize = 0;
    while i < rows.len()
        invariant
            0 <= i <= rows.len(),
            m == checkins_table(*conn),
            pm == people_table(*conn),
            date_valid(*day),
            0 <= minute < 1440,
            forall|w: int| 0 <= w < rows@.len() ==> #[trigger] m.contains_pair(
                rows@[w].id@,
                rows@[w]@,
            ),
            forall|k: Seq<char>| #[trigger] m.dom().contains(k) ==> exists|w: int|
                0 <= w < rows@.len() && #[trigger] rows@[w].id@ == k,
            forall|w: int| 0 <= w < people@.len() ==> #[trigger] pm.contains_pair(
                people@[w].id@,
                people@[w]@,
            ),
            forall|k: Seq<char>| #[trigger] pm.dom().contains(k) ==> exists|w: int|
                0 <= w < people@.len() && #[trigger] people@[w].id@ == k,
            forall|q: int| 0 <= q < out@.len() ==> m.dom().contains(
                (#[trigger] out@[q]).checkin_id@,
            ) && reminder_candidate(m[out@[q].checkin_id@]) && reminder_due(
                m[out@[q].checkin_id@],
                *day,
                minute as int,
            ) && Some(out@[q].next_checkin_date@) == m[out@[q].checkin_id@].next_checkin_date
                && Some(out@[q].reminder_time@) == m[out@[q].checkin_id@].reminder_time,
            forall|w: int| 0 <= w < i && #[trigger] m.contains_pair(rows@[w].id@, rows@[w]@)
                && reminder_candidate(rows@[w]@) && reminder_due(rows@[w]@, *day, minute as int)
                && pm.dom().contains(rows@[w]@.person_id) ==> exists|q: int|
                0 <= q < out@.len() && (#[trigger] out@[q]).checkin_id@ == rows@[w].id@,
        decreases rows.len() - i,
    {
        let candidate = rows[i].reminder_enabled && rows[i].next_checkin_date.is_some()
            && rows[i].reminder_time.is_some() && (match &rows[i].reminder_state {
            Some(s) => !str_eq(s.as_str(), "sent"),
            None => true,
        });
        if candidate {
            let next_s = match &rows[i].next_checkin_date {
                Some(s) => s.clone(),
                None => String::new(),
            };
            let time_s = match &rows[i].reminder_time {
                Some(s) => s.clone(),
                None => String::new(),
            };
            let date = crate::dates::parse_date(next_s.as_str())?;
            let time = crate::dates::parse_time(time_s.as_str())?;
            let due = crate::dates::date_before(&date, day) || (date.year == day.year
                && date.month == day.month && date.day == day.day && time <= minute);
            proof {
                if date == *day {
                    assert(!date_lt(date, *day)) by {
                        crate::dates::lemma_day_number_year_bound(*day);
                    }
                }
            }
            if due {
                // the scan joins each reminder to its person; a
                // vanished person drops the row
                let mut p: usize = 0;
                let mut pname: Option<String> = None;
                while p < people.len()
                    invariant
                        0 <= p <= people.len(),
                        pname matches Some(nm) ==> exists|w: int| 0 <= w < people@.len()
                            && (#[trigger] people@[w]).id@ == rows@[i as int].person_id@
                            && people@[w].name@ == nm@,
                        pname is None ==> forall|w: int| 0 <= w < p
                            ==> (#[trigger] people@[w]).id@ != rows@[i as int].person_id@,
                        0 <= i < rows@.len(),
                    decreases people.len() - p,
                {
                    if pname.is_none() && str_eq(people[p].id.as_str(),
                        rows[i].person_id.as_str()) {
                        pname = Some(people[p].name.clone());
                    }
                    p = p + 1;
                }
                match pname {
                    Some(nm) => {
                        let ghost old_out = out@;
                        out.push(CheckinReminder {
                            checkin_id: rows[i].id.clone(),
                            person_name: nm,
                            next_checkin_date: next_s,
                            reminder_time: time_s,
                        });
                        proof {
                            assert(m.contains_pair(rows@[i as int].id@, rows@[i as int]@));
                            assert(m[rows@[i as int].id@] == rows@[i as int]@);
                            assert(reminder_candidate(rows@[i as int]@));
                            assert(reminder_due(rows@[i as int]@, *day, minute as int));
                            assert forall|q: int| 0 <= q < out@.len() implies m.dom().contains(
                                (#[trigger] out@[q]).checkin_id@,
                            ) && reminder_candidate(m[out@[q].checkin_id@]) && reminder_due(
                                m[out@[q].checkin_id@],
                                *day,
                                minute as int,
                            ) && Some(out@[q].next_checkin_date@)
                                == m[out@[q].checkin_id@].next_checkin_date && Some(
                                out@[q].reminder_time@,
                            ) == m[out@[q].checkin_id@].reminder_time by {
                                if q < old_out.len() {
                                    assert(out@[q] == old_out[q]);
                                } else {
                                    assert(out@[q].checkin_id@ == rows@[i as int].id@);
                                }
                            }
                            assert forall|w: int| 0 <= w < i + 1 && #[trigger] m.contains_pair(
                                rows@[w].id@,
                                rows@[w]@,
                            ) && reminder_candidate(rows@[w]@) && reminder_due(rows@[w]@, *day,
                                minute as int) && pm.dom().contains(rows@[w]@.person_id)
                                implies exists|q: int| 0 <= q < out@.len()
                                    && (#[trigger] out@[q]).checkin_id@ == rows@[w].id@ by {
                                if w < i {
                                    let q = choose|q: int| 0 <= q < old_out.len()
                                        && (#[trigger] old_out[q]).checkin_id@ == rows@[w].id@;
                                    assert(out@[q] == old_out[q]);
                                } else {
                                    assert(out@[out@.len() - 1].checkin_id@ == rows@[w].id@);
                                }
                            }
                        }
                    },
                    None => {
                        proof {
                            if pm.dom().contains(rows@[i as int]@.person_id) {
                                let w = choose|w: int| 0 <= w < people@.len()
                                    && #[trigger] people@[w].id@ == rows@[i as int]@.person_id;
                                assert(false);
                            }
                        }
                    },
                }
            }
        }
        i = i + 1;
    }
    proof {
        assert forall|k: Seq<char>| #[trigger] m.dom().contains(k) && reminder_candidate(m[k])
            && reminder_due(m[k], *day, minute as int) && pm.dom().contains(m[k].person_id)
            implies exists|q: int| 0 <= q < out@.len() && (#[trigger] out@[q]).checkin_id@
                == k by {
            let w = choose|w: int| 0 <= w < rows@.len() && #[trigger] rows@[w].id@ == k;
            assert(m.contains_pair(rows@[w].id@, rows@[w]@));
            assert(rows@[w]@ == m[k]);
        }
    }
    Ok(out)
}

/// Marks a check-in's reminder sent; a missing id is a no-op, and
/// sending twice is harmless.
pub fn mark_checkin_reminder_sent(conn: &mut rusqlite::Connection, checkin_id: &str) -> (r: Result<
    (),
    String,
>)
    ensures
        task_state(*final(conn)) == task_state(*old(conn)),
        notes_state(*final(conn)) == notes_state(*old(conn)),
        schema_state(*final(conn)) == schema_state(*old(conn)),
        people_table(*final(conn)) == people_table(*old(conn)),
        r is Ok && !checkins_table(*old(conn)).dom().contains(checkin_id@) ==> checkins_table(
            *final(conn),
        ) == checkins_table(*old(conn)),
        r is Ok && checkins_table(*old(conn)).dom().contains(checkin_id@) ==> exists|u: Seq<char>|
            checkins_table(*final(conn)) == checkins_table(*old(conn)).insert(
            checkin_id@,
            #[trigger] sent_view(checkins_table(*old(conn))[checkin_id@], u),
        ),
{
    let rows = select_all_checkins(conn)?;
    let mut i: usize = 0;
    while i < rows.len()
        invariant
            0 <= i <= rows.len(),
            checkins_table(*conn) == checkins_table(*old(conn)),
            task_state(*conn) == task_state(*old(conn)),
            notes_state(*conn) == notes_state(*old(conn)),
            schema_state(*conn) == schema_state(*old(conn)),
            people_table(*conn) == people_table(*old(conn)),
            forall|w: int| 0 <= w < rows@.len() ==> #[trigger] checkins_table(
                *conn,
            ).contains_pair(rows@[w].id@, rows@[w]@),
            forall|k: Seq<char>| #[trigger] checkins_table(*conn).dom().contains(k)
                ==> exists|w: int| 0 <= w < rows@.len() && #[trigger] rows@[w].id@ == k,
            forall|w: int| 0 <= w < i ==> (#[trigger] rows@[w]).id@ != checkin_id@,
        decreases rows.len() - i,
    {
        if str_eq(rows[i].id.as_str(), checkin_id) {
            proof {
                assert(checkins_table(*conn).contains_pair(rows@[i as int].id@,
                    rows@[i as int]@));
            }
            let mut c = rows[i].duplicate();
            c.reminder_state = Some(String::from_str("sent"));
            c.updated_at = now_rfc3339();
            let ghost prev = checkins_table(*old(conn))[checkin_id@];
            update_checkin_row(conn, &c)?;
            proof {
                assert(c@ =~= sent_view(prev, c@.updated_at));
            }
            return Ok(());
        }
        i = i + 1;
    }
    proof {
        if checkins_table(*conn).dom().contains(checkin_id@) {
            let w = choose|w: int| 0 <= w < rows@.len() && #[trigger] rows@[w].id@ == checkin_id@;
            assert(false);
        }
    }
    Ok(())
}

/// A check-in row after its reminder was sent.
pub open spec fn sent_view(prev: CheckinV, u: Seq<char>) -> CheckinV {
    CheckinV { reminder_state: Some("sent"@), updated_at: u, ..prev }
}

} // verus!

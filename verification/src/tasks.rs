//! The task repository: CRUD, the status lifecycle, manual ordering
//! within `(target_date, rolled_over)` partitions, the daily rollover
//! sweep, and occurrence generation for recurring tasks.

use vstd::prelude::*;
use crate::model::{str_eq, Task, TaskInput, TaskV};
use crate::store::{
    checkin_state, delete_task_tag_links, insert_tag_row, insert_task_row, insert_task_tag_link,
    notes_state, now_rfc3339, schema_state, select_all_tags, select_all_tasks, task_tags_rel,
    tags_table, tasks_table, new_uuid, TagRow,
};
use crate::tags::{
    clean_tags_spec, join_commas, lower_of, lowercase_text, normalize_task_tags_spec,
    split_commas,
};

verus! {

/// Whether a task sits in the manual-ordering partition of a date and
/// rollover flag.
pub open spec fn in_partition(t: TaskV, date: Seq<char>, rolled: bool) -> bool {
    t.target_date == date && t.rolled_over == rolled
}

/// `n` is one past the largest manual position in the partition: every
/// row there sits below it, and unless the partition is empty, some row
/// sits exactly at `n - 1`.
pub open spec fn next_order_ok(
    m: Map<Seq<char>, TaskV>,
    date: Seq<char>,
    rolled: bool,
    n: int,
) -> bool {
    &&& forall|k: Seq<char>| #[trigger] m.dom().contains(k) && in_partition(m[k], date, rolled)
        ==> m[k].sort_order < n
    &&& (n == 1 || exists|k: Seq<char>| #[trigger] m.dom().contains(k) && in_partition(
        m[k],
        date,
        rolled,
    ) && m[k].sort_order == n - 1)
}

/// The tag map only grew: every old row is still there, unchanged.
pub open spec fn tags_extended(
    a: Map<Seq<char>, crate::store::TagRowV>,
    b: Map<Seq<char>, crate::store::TagRowV>,
) -> bool {
    forall|k: Seq<char>| #[trigger] a.dom().contains(k) ==> b.contains_pair(k, a[k])
}

/// The join links of every other task are untouched.
pub open spec fn links_except(
    a: Set<(Seq<char>, Seq<char>)>,
    b: Set<(Seq<char>, Seq<char>)>,
    id: Seq<char>,
) -> bool {
    forall|p: (Seq<char>, Seq<char>)| p.0 != id ==> (#[trigger] b.contains(p) <==> a.contains(p))
}

/// Whether some name in the list has the given lowercase form.
pub open spec fn lower_in(names: Seq<Seq<char>>, low: Seq<char>) -> bool {
    exists|j: int| 0 <= j < names.len() && lower_of(#[trigger] names[j]) == low
}

/// Whether some stored tag with the name's lowercase form is linked to
/// the task.
pub open spec fn has_synced_tag(
    tags: Map<Seq<char>, crate::store::TagRowV>,
    links: Set<(Seq<char>, Seq<char>)>,
    id: Seq<char>,
    name: Seq<char>,
) -> bool {
    exists|tid: Seq<char>| #[trigger] tags.dom().contains(tid) && lower_of(tags[tid].name)
        == lower_of(name) && links.contains((id, tid))
}

/// The join rows of one task mirror a tag-name list: every link of the
/// task points at a tag whose lowercase name is one of the list's, and
/// every name of the list has a linked tag with that lowercase name.
pub open spec fn tags_synced(
    tags: Map<Seq<char>, crate::store::TagRowV>,
    links: Set<(Seq<char>, Seq<char>)>,
    id: Seq<char>,
    names: Seq<Seq<char>>,
) -> bool {
    &&& forall|p: (Seq<char>, Seq<char>)| #[trigger] links.contains(p) && p.0 == id
        ==> tags.dom().contains(p.1) && lower_in(names, lower_of(tags[p.1].name))
    &&& forall|j: int| 0 <= j < names.len() ==> has_synced_tag(
        tags,
        links,
        id,
        #[trigger] names[j],
    )
}

/// A tag list after the trip through its comma-joined storage column.
pub open spec fn roundtrip_tags(ts: Seq<Seq<char>>) -> Seq<Seq<char>> {
    clean_tags_spec(split_commas(join_commas(ts)))
}

/// Looks a task up by id in a listing.
fn find_task(rows: &Vec<Task>, id: &str) -> (r: Option<Task>)
    ensures
        r matches Some(t) ==> exists|i: int| 0 <= i < rows@.len() && rows@[i]@ == t@
            && t.id@ == id@,
        r is None ==> forall|i: int| 0 <= i < rows@.len() ==> (#[trigger] rows@[i]).id@ != id@,
{
    let mut i: usize = 0;
    while i < rows.len()
        invariant
            0 <= i <= rows.len(),
            forall|k: int| 0 <= k < i ==> (#[trigger] rows@[k]).id@ != id@,
        decreases rows.len() - i,
    {
        if str_eq(rows[i].id.as_str(), id) {
            let t = rows[i].duplicate();
            return Some(t);
        }
        i = i + 1;
    }
    None
}

/// Reads one task by id; a missing id is a failed lookup.
pub fn get_task(conn: &rusqlite::Connection, id: &str) -> (r: Result<Task, String>)
    ensures
        r matches Ok(t) ==> tasks_table(*conn).contains_pair(id@, t@) && t.id@ == id@,
{
    let rows = select_all_tasks(conn)?;
    match find_task(&rows, id) {
        Some(t) => Ok(t),
        None => Err(String::from_str("Task not found")),
    }
}

/// The next free manual position in a partition: one past the largest
/// `sort_order` there, or 1 in an empty partition.
pub fn next_sort_order(
    conn: &rusqlite::Connection,
    target_date: &String,
    rolled_over: bool,
) -> (r: Result<i64, String>)
    ensures
        r matches Ok(n) ==> next_order_ok(tasks_table(*conn), target_date@, rolled_over, n as int),
{
    let rows = select_all_tasks(conn)?;
    let ghost m = tasks_table(*conn);
    let mut found = false;
    let mut best: i64 = 0;
    let ghost mut wit: int = 0;
    let mut i: usize = 0;
    while i < rows.len()
        invariant
            0 <= i <= rows.len(),
            forall|k: int| 0 <= k < rows@.len() ==> #[trigger] m.contains_pair(
                rows@[k].id@,
                rows@[k]@,
            ),
            forall|k: int| 0 <= k < i && in_partition(#[trigger] rows@[k]@, target_date@,
                rolled_over) ==> rows@[k]@.sort_order <= best,
            found ==> 0 <= wit < rows@.len() && in_partition(rows@[wit]@, target_date@,
                rolled_over) && rows@[wit]@.sort_order == best,
            !found ==> best == 0 && forall|k: int| 0 <= k < i ==> !in_partition(
                #[trigger] rows@[k]@,
                target_date@,
                rolled_over,
            ),
        decreases rows.len() - i,
    {
        if str_eq(rows[i].target_date.as_str(), target_date.as_str())
            && rows[i].rolled_over == rolled_over {
            if !found || rows[i].sort_order > best {
                best = rows[i].sort_order;
                found = true;
                proof {
                    wit = i as int;
                }
            }
        }
        i = i + 1;
    }
    if found && best == i64::MAX {
        return Err(String::from_str("sort order overflow"));
    }
    let n: i64 = if found { best + 1 } else { 1 };
    proof {
        assert forall|k: Seq<char>| #[trigger] m.dom().contains(k) && in_partition(
            m[k],
            target_date@,
            rolled_over,
        ) implies m[k].sort_order < n as int by {
            let w = choose|w: int| 0 <= w < rows@.len() && #[trigger] rows@[w].id@ == k;
            assert(m.contains_pair(rows@[w].id@, rows@[w]@));
            assert(rows@[w]@ == m[k]);
        }
        if found {
            assert(m.contains_pair(rows@[wit].id@, rows@[wit]@));
            assert(m.dom().contains(rows@[wit].id@) && in_partition(
                m[rows@[wit].id@],
                target_date@,
                rolled_over,
            ) && m[rows@[wit].id@].sort_order == n - 1);
        }
    }
    Ok(n)
}

/// Whether some stored tag's name already has the given lowercase form.
pub open spec fn lower_key_present(
    tags: Map<Seq<char>, crate::store::TagRowV>,
    low: Seq<char>,
) -> bool {
    exists|k0: Seq<char>| #[trigger] tags.dom().contains(k0) && lower_of(tags[k0].name) == low
}

/// Rewrites the join rows of one task to mirror a normalized tag list:
/// existing links are dropped, then each tag is linked to one tag row
/// with the same lowercase name — one link per distinct key — and a tag
/// row is created only for keys no stored tag carries.
#[verifier::rlimit(100)]
pub fn sync_task_tags(
    conn: &mut rusqlite::Connection,
    task_id: &String,
    tags: &Vec<String>,
) -> (r: Result<(), String>)
    ensures
        tasks_table(*final(conn)) == tasks_table(*old(conn)),
        notes_state(*final(conn)) == notes_state(*old(conn)),
        checkin_state(*final(conn)) == checkin_state(*old(conn)),
        schema_state(*final(conn)) == schema_state(*old(conn)),
        r is Ok ==> tags_extended(tags_table(*old(conn)), tags_table(*final(conn))),
        r is Ok ==> links_except(task_tags_rel(*old(conn)), task_tags_rel(*final(conn)), task_id@),
        r is Ok ==> tags_synced(
            tags_table(*final(conn)),
            task_tags_rel(*final(conn)),
            task_id@,
            tags.deep_view(),
        ),
        r is Ok ==> forall|k: Seq<char>| #[trigger] tags_table(*final(conn)).dom().contains(k)
            && !tags_table(*old(conn)).dom().contains(k) ==> !lower_key_present(
            tags_table(*old(conn)),
            lower_of(tags_table(*final(conn))[k].name),
        ),
        r is Ok ==> forall|p1: (Seq<char>, Seq<char>), p2: (Seq<char>, Seq<char>)|
            #![trigger task_tags_rel(*final(conn)).contains(p1), task_tags_rel(*final(conn)).contains(p2)]
            task_tags_rel(*final(conn)).contains(p1) && task_tags_rel(*final(conn)).contains(p2)
                && p1.0 == task_id@ && p2.0 == task_id@ && lower_of(
                tags_table(*final(conn))[p1.1].name,
            ) == lower_of(tags_table(*final(conn))[p2.1].name) ==> p1.1 == p2.1,
{
    let ghost c0 = *conn;
    delete_task_tag_links(conn, task_id)?;
    proof {
        assert forall|p: (Seq<char>, Seq<char>)| !(#[trigger] task_tags_rel(*conn).contains(p)
            && p.0 == task_id@) by {
            if task_tags_rel(*conn).contains(p) {
                assert(task_tags_rel(c0).filter(|q: (Seq<char>, Seq<char>)| q.0 != task_id@)
                    .contains(p));
            }
        }
    }
    if tags.len() == 0 {
        proof {
            assert(tags.deep_view().len() == 0);
        }
        return Ok(());
    }
    let now = now_rfc3339();
    let mut chosen: Vec<(String, String)> = Vec::new();
    let mut i: usize = 0;
    while i < tags.len()
        invariant
            0 <= i <= tags.len(),
            c0 == *old(conn),
            tasks_table(*conn) == tasks_table(c0),
            notes_state(*conn) == notes_state(c0),
            checkin_state(*conn) == checkin_state(c0),
            schema_state(*conn) == schema_state(c0),
            tags_extended(tags_table(c0), tags_table(*conn)),
            links_except(task_tags_rel(c0), task_tags_rel(*conn), task_id@),
            forall|p: (Seq<char>, Seq<char>)| #[trigger] task_tags_rel(*conn).contains(p)
                && p.0 == task_id@ ==> tags_table(*conn).dom().contains(p.1)
                && lower_in(tags.deep_view(), lower_of(tags_table(*conn)[p.1].name)),
            forall|j: int| 0 <= j < i ==> has_synced_tag(
                tags_table(*conn),
                task_tags_rel(*conn),
                task_id@,
                #[trigger] tags.deep_view()[j],
            ),
            forall|k: Seq<char>| #[trigger] tags_table(*conn).dom().contains(k)
                && !tags_table(c0).dom().contains(k) ==> !lower_key_present(
                tags_table(c0),
                lower_of(tags_table(*conn)[k].name),
            ),
            forall|q1: int, q2: int|
                #![trigger chosen@[q1], chosen@[q2]]
                0 <= q1 < q2 < chosen@.len() ==> chosen@[q1].0@ != chosen@[q2].0@,
            forall|q: int| 0 <= q < chosen@.len() ==> tags_table(*conn).dom().contains(
                (#[trigger] chosen@[q]).1@,
            ) && lower_of(tags_table(*conn)[chosen@[q].1@].name) == chosen@[q].0@,
            forall|p: (Seq<char>, Seq<char>)| #[trigger] task_tags_rel(*conn).contains(p)
                && p.0 == task_id@ ==> exists|q: int| 0 <= q < chosen@.len()
                && (#[trigger] chosen@[q]).1@ == p.1,
        decreases tags.len() - i,
    {
        let ghost pre = *conn;
        let key = lowercase_text(tags[i].as_str());
        // reuse the tag already picked for this key in this rewrite
        let mut memo: Option<String> = None;
        let mut q: usize = 0;
        while q < chosen.len()
            invariant
                0 <= q <= chosen.len(),
                *conn == pre,
                key@ == lower_of(tags@[i as int]@),
                forall|q1: int, q2: int|
                    #![trigger chosen@[q1], chosen@[q2]]
                    0 <= q1 < q2 < chosen@.len() ==> chosen@[q1].0@ != chosen@[q2].0@,
                forall|w: int| 0 <= w < chosen@.len() ==> tags_table(pre).dom().contains(
                    (#[trigger] chosen@[w]).1@,
                ) && lower_of(tags_table(pre)[chosen@[w].1@].name) == chosen@[w].0@,
                memo matches Some(tid) ==> exists|w: int| 0 <= w < chosen@.len()
                    && (#[trigger] chosen@[w]).1@ == tid@ && chosen@[w].0@ == key@,
                memo is None ==> forall|x: int| 0 <= x < q ==> (#[trigger] chosen@[x]).0@
                    != key@,
            decreases chosen.len() - q,
        {
            if memo.is_none() && chosen[q].0.eq(&key) {
                proof {
                    assert(chosen@[q as int].0@ == key@);
                }
                memo = Some(chosen[q].1.clone());
            }
            q = q + 1;
        }
        match memo {
            Some(tid) => {
                proof {
                    let w = choose|w: int| 0 <= w < chosen@.len() && (#[trigger] chosen@[w]).1@
                        == tid@ && chosen@[w].0@ == key@;
                    assert(tags_table(*conn).dom().contains(tid@) && lower_of(
                        tags_table(*conn)[tid@].name,
                    ) == key@);
                }
                insert_task_tag_link(conn, task_id, &tid)?;
                proof {
                    sync_step_facts(pre, *conn, task_id@, tags.deep_view(), i as int,
                        chosen@, tid@);
                }
            },
            None => {
                let all = select_all_tags(conn)?;
                let mut found: Option<String> = None;
                let mut w: usize = 0;
                while w < all.len()
                    invariant
                        0 <= w <= all.len(),
                        0 <= i < tags@.len(),
                        *conn == pre,
                        key@ == lower_of(tags@[i as int]@),
                        forall|x: int| 0 <= x < all@.len() ==> #[trigger] tags_table(
                            pre,
                        ).contains_pair(all@[x].id@, all@[x]@),
                        forall|k: Seq<char>| #[trigger] tags_table(pre).dom().contains(k)
                            ==> exists|x: int| 0 <= x < all@.len() && #[trigger] all@[x].id@
                            == k,
                        found matches Some(tid) ==> tags_table(pre).dom().contains(tid@)
                            && lower_of(tags_table(pre)[tid@].name) == key@,
                        found is None ==> forall|x: int| 0 <= x < w ==> lower_of(
                            (#[trigger] all@[x]).name@,
                        ) != key@,
                    decreases all.len() - w,
                {
                    if found.is_none() {
                        let low = lowercase_text(all[w].name.as_str());
                        if low.eq(&key) {
                            proof {
                                assert(tags_table(pre).contains_pair(all@[w as int].id@,
                                    all@[w as int]@));
                            }
                            found = Some(all[w].id.clone());
                        }
                    }
                    w = w + 1;
                }
                let tag_id: String = match found {
                    Some(tid) => tid,
                    None => {
                        proof {
                            // no stored tag carries this key: the scan
                            // was complete over the current table
                            assert(!lower_key_present(tags_table(pre), key@)) by {
                                if lower_key_present(tags_table(pre), key@) {
                                    let k0 = choose|k0: Seq<char>|
                                        #[trigger] tags_table(pre).dom().contains(k0)
                                            && lower_of(tags_table(pre)[k0].name) == key@;
                                    let x = choose|x: int| 0 <= x < all@.len()
                                        && #[trigger] all@[x].id@ == k0;
                                    assert(tags_table(pre).contains_pair(all@[x].id@,
                                        all@[x]@));
                                    assert(false);
                                }
                            }
                        }
                        let tid = new_uuid();
                        let row = TagRow {
                            id: tid.clone(),
                            name: tags[i].clone(),
                            created_at: now.clone(),
                        };
                        insert_tag_row(conn, &row)?;
                        proof {
                            assert(tags_table(*conn).contains_pair(tid@, row@));
                            assert(lower_of(tags_table(*conn)[tid@].name)
                                == lower_of(tags.deep_view()[i as int]));
                        }
                        tid
                    },
                };
                proof {
                    assert(tags_table(*conn).dom().contains(tag_id@) && lower_of(
                        tags_table(*conn)[tag_id@].name,
                    ) == key@);
                }
                insert_task_tag_link(conn, task_id, &tag_id)?;
                let ghost old_chosen = chosen@;
                chosen.push((key, tag_id));
                proof {
                    assert(chosen@ =~= old_chosen.push((chosen@[chosen@.len() - 1].0,
                        chosen@[chosen@.len() - 1].1)));
                    sync_step_after_push(pre, *conn, task_id@, tags.deep_view(), i as int,
                        old_chosen, chosen@);
                }
            },
        }
        i = i + 1;
    }
    proof {
        assert(tags.deep_view().len() == tags@.len());
        assert forall|p1: (Seq<char>, Seq<char>), p2: (Seq<char>, Seq<char>)|
            #![trigger task_tags_rel(*conn).contains(p1), task_tags_rel(*conn).contains(p2)]
            task_tags_rel(*conn).contains(p1) && task_tags_rel(*conn).contains(p2) && p1.0
                == task_id@ && p2.0 == task_id@ && lower_of(tags_table(*conn)[p1.1].name)
                == lower_of(tags_table(*conn)[p2.1].name) implies p1.1 == p2.1 by {
            let q1 = choose|q: int| 0 <= q < chosen@.len() && (#[trigger] chosen@[q]).1@
                == p1.1;
            let q2 = choose|q: int| 0 <= q < chosen@.len() && (#[trigger] chosen@[q]).1@
                == p2.1;
            assert(lower_of(tags_table(*conn)[p1.1].name) == chosen@[q1].0@);
            assert(lower_of(tags_table(*conn)[p2.1].name) == chosen@[q2].0@);
            if q1 != q2 {
                if q1 < q2 {
                    assert(chosen@[q1].0@ != chosen@[q2].0@);
                } else {
                    assert(chosen@[q2].0@ != chosen@[q1].0@);
                }
            }
        }
    }
    Ok(())
}

/// The link and memo bookkeeping after linking a tag already chosen for
/// an earlier equal key in this rewrite.
proof fn sync_step_facts(
    pre: rusqlite::Connection,
    cur: rusqlite::Connection,
    id: Seq<char>,
    names: Seq<Seq<char>>,
    i: int,
    chosen: Seq<(String, String)>,
    tid: Seq<char>,
)
    requires
        0 <= i < names.len(),
        tags_table(cur) == tags_table(pre),
        task_tags_rel(cur) == task_tags_rel(pre).insert((id, tid)),
        tags_table(pre).dom().contains(tid),
        lower_of(tags_table(pre)[tid].name) == lower_of(names[i]),
        exists|w: int| 0 <= w < chosen.len() && (#[trigger] chosen[w]).1@ == tid,
        forall|p: (Seq<char>, Seq<char>)| #[trigger] task_tags_rel(pre).contains(p) && p.0 == id
            ==> tags_table(pre).dom().contains(p.1) && lower_in(names, lower_of(
            tags_table(pre)[p.1].name,
        )),
        forall|j: int| 0 <= j < i ==> has_synced_tag(
            tags_table(pre),
            task_tags_rel(pre),
            id,
            #[trigger] names[j],
        ),
        forall|p: (Seq<char>, Seq<char>)| #[trigger] task_tags_rel(pre).contains(p) && p.0 == id
            ==> exists|q: int| 0 <= q < chosen.len() && (#[trigger] chosen[q]).1@ == p.1,
    ensures
        forall|p: (Seq<char>, Seq<char>)| #[trigger] task_tags_rel(cur).contains(p) && p.0 == id
            ==> tags_table(cur).dom().contains(p.1) && lower_in(names, lower_of(
            tags_table(cur)[p.1].name,
        )),
        forall|j: int| 0 <= j < i + 1 ==> has_synced_tag(
            tags_table(cur),
            task_tags_rel(cur),
            id,
            #[trigger] names[j],
        ),
        forall|p: (Seq<char>, Seq<char>)| #[trigger] task_tags_rel(cur).contains(p) && p.0 == id
            ==> exists|q: int| 0 <= q < chosen.len() && (#[trigger] chosen[q]).1@ == p.1,
{
    assert forall|p: (Seq<char>, Seq<char>)| #[trigger] task_tags_rel(cur).contains(p) && p.0
        == id implies tags_table(cur).dom().contains(p.1) && lower_in(names, lower_of(
        tags_table(cur)[p.1].name,
    )) by {
        if p != (id, tid) {
            assert(task_tags_rel(pre).contains(p));
        } else {
            assert(lower_in(names, lower_of(tags_table(cur)[p.1].name))) by {
                assert(lower_of(names[i]) == lower_of(tags_table(cur)[tid].name));
            }
        }
    }
    assert forall|j: int| 0 <= j < i + 1 implies has_synced_tag(
        tags_table(cur),
        task_tags_rel(cur),
        id,
        #[trigger] names[j],
    ) by {
        if j < i {
            let t0 = choose|t0: Seq<char>| #[trigger] tags_table(pre).dom().contains(t0)
                && lower_of(tags_table(pre)[t0].name) == lower_of(names[j])
                && task_tags_rel(pre).contains((id, t0));
            assert(tags_table(cur).dom().contains(t0) && lower_of(tags_table(cur)[t0].name)
                == lower_of(names[j]) && task_tags_rel(cur).contains((id, t0)));
        } else {
            assert(tags_table(cur).dom().contains(tid) && lower_of(tags_table(cur)[tid].name)
                == lower_of(names[j]) && task_tags_rel(cur).contains((id, tid)));
        }
    }
    assert forall|p: (Seq<char>, Seq<char>)| #[trigger] task_tags_rel(cur).contains(p) && p.0
        == id implies exists|q: int| 0 <= q < chosen.len() && (#[trigger] chosen[q]).1@
        == p.1 by {
        if p != (id, tid) {
            assert(task_tags_rel(pre).contains(p));
        } else {
            let w = choose|w: int| 0 <= w < chosen.len() && (#[trigger] chosen[w]).1@ == tid;
        }
    }
}

/// The same bookkeeping when a fresh choice was pushed (after a table
/// lookup or a creation).
proof fn sync_step_after_push(
    pre: rusqlite::Connection,
    cur: rusqlite::Connection,
    id: Seq<char>,
    names: Seq<Seq<char>>,
    i: int,
    old_chosen: Seq<(String, String)>,
    chosen: Seq<(String, String)>,
)
    requires
        0 <= i < names.len(),
        chosen.len() == old_chosen.len() + 1,
        forall|q: int| 0 <= q < old_chosen.len() ==> #[trigger] chosen[q] == old_chosen[q],
        chosen.last().0@ == lower_of(names[i]),
        tags_table(cur).dom().contains(chosen.last().1@),
        lower_of(tags_table(cur)[chosen.last().1@].name) == lower_of(names[i]),
        task_tags_rel(cur) == task_tags_rel(pre).insert((id, chosen.last().1@)),
        tags_extended(tags_table(pre), tags_table(cur)),
        // the key was not chosen before and is fresh to the table scan
        forall|q: int| 0 <= q < old_chosen.len() ==> (#[trigger] old_chosen[q]).0@ != lower_of(
            names[i],
        ),
        forall|q1: int, q2: int|
            #![trigger old_chosen[q1], old_chosen[q2]]
            0 <= q1 < q2 < old_chosen.len() ==> old_chosen[q1].0@ != old_chosen[q2].0@,
        forall|q: int| 0 <= q < old_chosen.len() ==> tags_table(pre).dom().contains(
            (#[trigger] old_chosen[q]).1@,
        ) && lower_of(tags_table(pre)[old_chosen[q].1@].name) == old_chosen[q].0@,
        forall|p: (Seq<char>, Seq<char>)| #[trigger] task_tags_rel(pre).contains(p) && p.0 == id
            ==> tags_table(pre).dom().contains(p.1) && lower_in(names, lower_of(
            tags_table(pre)[p.1].name,
        )),
        forall|j: int| 0 <= j < i ==> has_synced_tag(
            tags_table(pre),
            task_tags_rel(pre),
            id,
            #[trigger] names[j],
        ),
        forall|p: (Seq<char>, Seq<char>)| #[trigger] task_tags_rel(pre).contains(p) && p.0 == id
            ==> exists|q: int| 0 <= q < old_chosen.len() && (#[trigger] old_chosen[q]).1@
            == p.1,
    ensures
        forall|q1: int, q2: int|
            #![trigger chosen[q1], chosen[q2]]
            0 <= q1 < q2 < chosen.len() ==> chosen[q1].0@ != chosen[q2].0@,
        forall|q: int| 0 <= q < chosen.len() ==> tags_table(cur).dom().contains(
            (#[trigger] chosen[q]).1@,
        ) && lower_of(tags_table(cur)[chosen[q].1@].name) == chosen[q].0@,
        forall|p: (Seq<char>, Seq<char>)| #[trigger] task_tags_rel(cur).contains(p) && p.0 == id
            ==> tags_table(cur).dom().contains(p.1) && lower_in(names, lower_of(
            tags_table(cur)[p.1].name,
        )),
        forall|j: int| 0 <= j < i + 1 ==> has_synced_tag(
            tags_table(cur),
            task_tags_rel(cur),
            id,
            #[trigger] names[j],
        ),
        forall|p: (Seq<char>, Seq<char>)| #[trigger] task_tags_rel(cur).contains(p) && p.0 == id
            ==> exists|q: int| 0 <= q < chosen.len() && (#[trigger] chosen[q]).1@ == p.1,
{
    let tid = chosen.last().1@;
    assert forall|q1: int, q2: int|
        #![trigger chosen[q1], chosen[q2]]
        0 <= q1 < q2 < chosen.len() implies chosen[q1].0@ != chosen[q2].0@ by {
        if q2 < chosen.len() - 1 {
            assert(chosen[q1] == old_chosen[q1] && chosen[q2] == old_chosen[q2]);
        } else {
            assert(chosen[q1] == old_chosen[q1]);
            assert(old_chosen[q1].0@ != lower_of(names[i]));
        }
    }
    assert forall|q: int| 0 <= q < chosen.len() implies tags_table(cur).dom().contains(
        (#[trigger] chosen[q]).1@,
    ) && lower_of(tags_table(cur)[chosen[q].1@].name) == chosen[q].0@ by {
        if q < chosen.len() - 1 {
            assert(chosen[q] == old_chosen[q]);
            assert(tags_table(cur).contains_pair(old_chosen[q].1@,
                tags_table(pre)[old_chosen[q].1@]));
        }
    }
    assert forall|p: (Seq<char>, Seq<char>)| #[trigger] task_tags_rel(cur).contains(p) && p.0
        == id implies tags_table(cur).dom().contains(p.1) && lower_in(names, lower_of(
        tags_table(cur)[p.1].name,
    )) by {
        if p != (id, tid) {
            assert(task_tags_rel(pre).contains(p));
            assert(tags_table(cur).contains_pair(p.1, tags_table(pre)[p.1]));
        } else {
            assert(lower_of(names[i]) == lower_of(tags_table(cur)[tid].name));
        }
    }
    assert forall|j: int| 0 <= j < i + 1 implies has_synced_tag(
        tags_table(cur),
        task_tags_rel(cur),
        id,
        #[trigger] names[j],
    ) by {
        if j < i {
            let t0 = choose|t0: Seq<char>| #[trigger] tags_table(pre).dom().contains(t0)
                && lower_of(tags_table(pre)[t0].name) == lower_of(names[j])
                && task_tags_rel(pre).contains((id, t0));
            assert(tags_table(cur).contains_pair(t0, tags_table(pre)[t0]));
            assert(tags_table(cur).dom().contains(t0) && lower_of(tags_table(cur)[t0].name)
                == lower_of(names[j]) && task_tags_rel(cur).contains((id, t0)));
        } else {
            assert(tags_table(cur).dom().contains(tid) && lower_of(tags_table(cur)[tid].name)
                == lower_of(names[j]) && task_tags_rel(cur).contains((id, tid)));
        }
    }
    assert forall|p: (Seq<char>, Seq<char>)| #[trigger] task_tags_rel(cur).contains(p) && p.0
        == id implies exists|q: int| 0 <= q < chosen.len() && (#[trigger] chosen[q]).1@
        == p.1 by {
        if p != (id, tid) {
            assert(task_tags_rel(pre).contains(p));
            let q = choose|q: int| 0 <= q < old_chosen.len() && (#[trigger] old_chosen[q]).1@
                == p.1;
            assert(chosen[q].1@ == p.1);
        } else {
            assert(chosen[chosen.len() - 1].1@ == p.1);
        }
    }
}

pub open spec fn clamp_spec(v: int, lo: int, hi: int) -> int {
    if v < lo {
        lo
    } else if v > hi {
        hi
    } else {
        v
    }
}

/// What the tags of a stored row become when the row is written back:
/// the list is rendered in storage form and read again.
pub open spec fn rewrite_tags(ts: Seq<Seq<char>>) -> Seq<Seq<char>> {
    roundtrip_tags(clean_tags_spec(ts))
}

/// On tags that came out of storage, writing a row back leaves its tag
/// list unchanged.
pub proof fn lemma_rewrite_stable(csv: Seq<char>)
    ensures
        rewrite_tags(clean_tags_spec(split_commas(csv))) == clean_tags_spec(split_commas(csv)),
{
    let ts = clean_tags_spec(split_commas(csv));
    crate::tags::lemma_parsed_tags_canonical(csv);
    crate::tags::lemma_clean_identity(ts);
    crate::tags::lemma_tags_round_trip(ts);
}

/// The row a task creation stores, given the fresh id, position, and
/// timestamp.
pub open spec fn created_view(
    inp: crate::model::TaskInputV,
    id: Seq<char>,
    sort: int,
    now: Seq<char>,
) -> TaskV {
    TaskV {
        id: id,
        title: inp.title,
        notes: inp.notes,
        tags: roundtrip_tags(normalize_task_tags_spec(inp.tags)),
        target_date: inp.target_date,
        status: inp.status,
        progress_percent: clamp_spec(inp.progress_percent, 0, 100),
        deadline_at: inp.deadline_at,
        is_recurring: inp.is_recurring,
        recurrence_type: crate::model::rec_type_spec(inp),
        recurrence_interval: Some(crate::model::rec_interval_spec(inp)),
        recurrence_weekdays: crate::model::rec_weekdays_spec(inp),
        timer_enabled: inp.timer_enabled,
        timer_minutes: crate::model::timer_minutes_spec(inp),
        timer_state: crate::model::timer_state_spec(inp),
        timer_ends_at: None,
        rolled_over: false,
        rolled_from_date: None,
        sort_order: sort,
        created_at: now,
        updated_at: now,
    }
}

/// Creates a task from validated input: numeric fields are clamped,
/// recurrence and timer fields normalized, tags normalized and mirrored
/// into the join table, and the row takes the next manual position at
/// the end of its `(target_date, not rolled over)` partition.
#[verifier::rlimit(100)]
pub fn create_task(conn: &mut rusqlite::Connection, input: TaskInput) -> (r: Result<Task, String>)
    ensures
        notes_state(*final(conn)) == notes_state(*old(conn)),
        checkin_state(*final(conn)) == checkin_state(*old(conn)),
        schema_state(*final(conn)) == schema_state(*old(conn)),
        r matches Ok(t) ==> {
            &&& t@ == created_view(input@, t.id@, t@.sort_order, t@.created_at)
            &&& !tasks_table(*old(conn)).dom().contains(t.id@)
            &&& tasks_table(*final(conn)) == tasks_table(*old(conn)).insert(t.id@, t@)
            &&& next_order_ok(tasks_table(*old(conn)), input.target_date@, false, t@.sort_order)
            &&& tags_extended(tags_table(*old(conn)), tags_table(*final(conn)))
            &&& links_except(task_tags_rel(*old(conn)), task_tags_rel(*final(conn)), t.id@)
            &&& tags_synced(
                tags_table(*final(conn)),
                task_tags_rel(*final(conn)),
                t.id@,
                normalize_task_tags_spec(input@.tags),
            )
        },
{
    let id = new_uuid();
    let now = now_rfc3339();
    let sort_order = next_sort_order(conn, &input.target_date, false)?;
    let normalized = crate::tags::normalize_task_tags(&input.tags);
    let tags_csv = crate::tags::normalize_tags(&normalized);
    proof {
        crate::tags::lemma_dedup_wf(input@.tags, Set::empty());
        crate::tags::lemma_clean_identity(normalized.deep_view());
    }
    let (_, rec_type, rec_interval, rec_weekdays, _, timer_minutes, timer_state) =
        crate::model::normalize_input(&input);
    let progress: i32 = if input.progress_percent < 0 {
        0
    } else if input.progress_percent > 100 {
        100
    } else {
        input.progress_percent
    };
    let task = Task {
        id,
        title: input.title.clone(),
        notes: crate::model::clone_opt_string(&input.notes),
        tags: crate::tags::parse_tags(tags_csv.as_str()),
        target_date: input.target_date.clone(),
        status: input.status.clone(),
        progress_percent: progress,
        deadline_at: crate::model::clone_opt_string(&input.deadline_at),
        is_recurring: input.is_recurring,
        recurrence_type: rec_type,
        recurrence_interval: Some(rec_interval),
        recurrence_weekdays: rec_weekdays,
        timer_enabled: input.timer_enabled,
        timer_minutes,
        timer_state,
        timer_ends_at: None,
        rolled_over: false,
        rolled_from_date: None,
        sort_order,
        created_at: now.clone(),
        updated_at: now,
    };
    proof {
        assert(task@ =~= created_view(input@, task.id@, task@.sort_order, task@.created_at));
    }
    insert_task_row(conn, &task, &tags_csv)?;
    proof {
        assert(crate::store::stored_task(task@, tags_csv@) =~= task@);
    }
    sync_task_tags(conn, &task.id, &normalized)?;
    Ok(task)
}

/// The views of listed rows.
pub open spec fn task_views(v: Seq<Task>) -> Seq<TaskV> {
    v.map_values(|t: Task| t@)
}

/// Every row of a listing is a stored row matching the selection, every
/// stored row matching it appears once, and rows come in the listing
/// order `(target_date, sort_order, created_at)`.
pub open spec fn listing(
    m: Map<Seq<char>, TaskV>,
    vs: Seq<TaskV>,
    pred: spec_fn(TaskV) -> bool,
) -> bool {
    &&& forall|i: int| 0 <= i < vs.len() ==> #[trigger] m.contains_pair(vs[i].id, vs[i]) && pred(
        vs[i],
    )
    &&& forall|k: Seq<char>| #[trigger] m.dom().contains(k) && pred(m[k]) ==> exists|i: int|
        0 <= i < vs.len() && (#[trigger] vs[i]).id == k
    &&& forall|i: int, j: int|
        #![trigger vs[i], vs[j]]
        0 <= i < j < vs.len() ==> vs[i].id != vs[j].id && crate::store::task_row_le(vs[i], vs[j])
}

pub open spec fn sel_on_date(d: Seq<char>) -> spec_fn(TaskV) -> bool {
    |t: TaskV| t.target_date == d
}

pub open spec fn sel_partition(d: Seq<char>, rolled: bool) -> spec_fn(TaskV) -> bool {
    |t: TaskV| t.target_date == d && t.rolled_over == rolled
}

pub open spec fn sel_after(d: Seq<char>) -> spec_fn(TaskV) -> bool {
    |t: TaskV| crate::tags::seq_lt(d, t.target_date)
}

/// A task that should roll over on the given day: dated strictly before
/// it and not done.
pub open spec fn overdue_on(t: TaskV, today: Seq<char>) -> bool {
    crate::tags::seq_lt(t.target_date, today) && t.status != "done"@
}

pub open spec fn sel_overdue(d: Seq<char>) -> spec_fn(TaskV) -> bool {
    |t: TaskV| overdue_on(t, d)
}

pub open spec fn sel_recurring() -> spec_fn(TaskV) -> bool {
    |t: TaskV| t.is_recurring
}

/// A listing follows from row views that satisfy the select contract,
/// filtered by the selection.
proof fn lemma_listing_from_filter(
    m: Map<Seq<char>, TaskV>,
    rvs: Seq<TaskV>,
    pred: spec_fn(TaskV) -> bool,
)
    requires
        forall|i: int| 0 <= i < rvs.len() ==> #[trigger] m.contains_pair(rvs[i].id, rvs[i]),
        forall|k: Seq<char>| #[trigger] m.dom().contains(k) ==> exists|i: int| 0 <= i < rvs.len()
            && (#[trigger] rvs[i]).id == k,
        forall|i: int, j: int|
            #![trigger rvs[i], rvs[j]]
            0 <= i < j < rvs.len() ==> rvs[i].id != rvs[j].id && crate::store::task_row_le(
                rvs[i],
                rvs[j],
            ),
    ensures
        listing(m, rvs.filter(pred), pred),
{
    broadcast use vstd::seq_lib::group_filter_ensures;

    let out = rvs.filter(pred);
    assert forall|i: int| 0 <= i < out.len() implies #[trigger] m.contains_pair(out[i].id, out[i])
        && pred(out[i]) by {
        crate::seqs::lemma_filter_elem(rvs, pred, i);
        let w = choose|w: int| 0 <= w < rvs.len() && rvs[w] == out[i];
        rvs.lemma_filter_pred(pred, i);
    }
    assert forall|k: Seq<char>| #[trigger] m.dom().contains(k) && pred(m[k]) implies exists|i: int|
        0 <= i < out.len() && (#[trigger] out[i]).id == k by {
        let w = choose|w: int| 0 <= w < rvs.len() && (#[trigger] rvs[w]).id == k;
        assert(m.contains_pair(rvs[w].id, rvs[w]));
        assert(pred(rvs[w]));
        crate::seqs::lemma_filter_keeps(rvs, pred, w);
        let i = choose|i: int| 0 <= i < out.len() && out[i] == rvs[w];
        assert(out[i].id == k);
    }
    let le = |a: TaskV, b: TaskV| a.id != b.id && crate::store::task_row_le(a, b);
    assert forall|i: int, j: int| 0 <= i < j < rvs.len() implies #[trigger] le(rvs[i], rvs[j]) by {
        assert(rvs[i].id != rvs[j].id && crate::store::task_row_le(rvs[i], rvs[j]));
    }
    crate::seqs::lemma_filter_sorted(rvs, pred, le);
    assert forall|i: int, j: int|
        #![trigger out[i], out[j]]
        0 <= i < j < out.len() implies out[i].id != out[j].id && crate::store::task_row_le(
        out[i],
        out[j],
    ) by {
        assert(le(out[i], out[j]));
    }
}

/// The select contract, restated over row views.
proof fn lemma_select_views(m: Map<Seq<char>, TaskV>, rows: Seq<Task>)
    requires
        forall|i: int| 0 <= i < rows.len() ==> #[trigger] m.contains_pair(rows[i].id@, rows[i]@),
        forall|k: Seq<char>| #[trigger] m.dom().contains(k) ==> exists|i: int| 0 <= i < rows.len()
            && #[trigger] rows[i].id@ == k,
        forall|i: int, j: int|
            #![trigger rows[i].id@, rows[j].id@]
            0 <= i < j < rows.len() ==> rows[i].id@ != rows[j].id@,
        forall|i: int, j: int|
            #![trigger rows[i]@, rows[j]@]
            0 <= i < j < rows.len() ==> crate::store::task_row_le(rows[i]@, rows[j]@),
    ensures
        forall|i: int| 0 <= i < task_views(rows).len() ==> #[trigger] m.contains_pair(
            task_views(rows)[i].id,
            task_views(rows)[i],
        ),
        forall|k: Seq<char>| #[trigger] m.dom().contains(k) ==> exists|i: int|
            0 <= i < task_views(rows).len() && (#[trigger] task_views(rows)[i]).id == k,
        forall|i: int, j: int|
            #![trigger task_views(rows)[i], task_views(rows)[j]]
            0 <= i < j < task_views(rows).len() ==> task_views(rows)[i].id != task_views(rows)[j].id
                && crate::store::task_row_le(task_views(rows)[i], task_views(rows)[j]),
{
    let rvs = task_views(rows);
    assert forall|i: int| 0 <= i < rvs.len() implies #[trigger] m.contains_pair(
        rvs[i].id,
        rvs[i],
    ) by {
        assert(rvs[i] == rows[i]@);
        assert(rows[i].id@ == rows[i]@.id);
    }
    assert forall|k: Seq<char>| #[trigger] m.dom().contains(k) implies exists|i: int|
        0 <= i < rvs.len() && (#[trigger] rvs[i]).id == k by {
        let w = choose|w: int| 0 <= w < rows.len() && #[trigger] rows[w].id@ == k;
        assert(rvs[w].id == k);
    }
    assert forall|i: int, j: int|
        #![trigger rvs[i], rvs[j]]
        0 <= i < j < rvs.len() implies rvs[i].id != rvs[j].id && crate::store::task_row_le(
        rvs[i],
        rvs[j],
    ) by {
        assert(rows[i].id@ != rows[j].id@);
        assert(crate::store::task_row_le(rows[i]@, rows[j]@));
        assert(rvs[i] == rows[i]@ && rvs[j] == rows[j]@);
        assert(rows[i].id@ == rows[i]@.id && rows[j].id@ == rows[j]@.id);
    }
}

/// Keeps the rows on the given date.
fn filter_on_date(rows: &Vec<Task>, d: &String) -> (out: Vec<Task>)
    ensures
        task_views(out@) == task_views(rows@).filter(sel_on_date(d@)),
{
    let ghost fp = sel_on_date(d@);
    let mut out: Vec<Task> = Vec::new();
    let mut i: usize = 0;
    proof {
        assert(task_views(rows@).take(0) =~= Seq::<TaskV>::empty());
        assert(task_views(out@) =~= task_views(rows@).take(0).filter(fp)) by {
            reveal(Seq::filter);
        }
    }
    while i < rows.len()
        invariant
            0 <= i <= rows.len(),
            fp == sel_on_date(d@),
            task_views(out@) == task_views(rows@).take(i as int).filter(fp),
        decreases rows.len() - i,
    {
        proof {
            assert(task_views(rows@).take(i as int + 1) =~= task_views(rows@).take(
                i as int).push(rows@[i as int]@));
            crate::seqs::lemma_filter_push(task_views(rows@).take(i as int), rows@[i as int]@, fp);
        }
        if str_eq(rows[i].target_date.as_str(), d.as_str()) {
            let d2 = rows[i].duplicate();
            out.push(d2);
            proof {
                assert(task_views(out@) =~= task_views(rows@).take(i as int).filter(fp).push(
                    rows@[i as int]@));
            }
        }
        i = i + 1;
    }
    proof {
        assert(task_views(rows@).take(rows@.len() as int) =~= task_views(rows@));
    }
    out
}

/// Keeps the rows of one `(target_date, rolled_over)` partition.
fn filter_partition(rows: &Vec<Task>, d: &String, rolled: bool) -> (out: Vec<Task>)
    ensures
        task_views(out@) == task_views(rows@).filter(sel_partition(d@, rolled)),
{
    let ghost fp = sel_partition(d@, rolled);
    let mut out: Vec<Task> = Vec::new();
    let mut i: usize = 0;
    proof {
        assert(task_views(rows@).take(0) =~= Seq::<TaskV>::empty());
        assert(task_views(out@) =~= task_views(rows@).take(0).filter(fp)) by {
            reveal(Seq::filter);
        }
    }
    while i < rows.len()
        invariant
            0 <= i <= rows.len(),
            fp == sel_partition(d@, rolled),
            task_views(out@) == task_views(rows@).take(i as int).filter(fp),
        decreases rows.len() - i,
    {
        proof {
            assert(task_views(rows@).take(i as int + 1) =~= task_views(rows@).take(
                i as int).push(rows@[i as int]@));
            crate::seqs::lemma_filter_push(task_views(rows@).take(i as int), rows@[i as int]@, fp);
        }
        if str_eq(rows[i].target_date.as_str(), d.as_str()) && rows[i].rolled_over == rolled {
            let d2 = rows[i].duplicate();
            out.push(d2);
            proof {
                assert(task_views(out@) =~= task_views(rows@).take(i as int).filter(fp).push(
                    rows@[i as int]@));
            }
        }
        i = i + 1;
    }
    proof {
        assert(task_views(rows@).take(rows@.len() as int) =~= task_views(rows@));
    }
    out
}

/// Keeps the rows dated strictly after the given date.
fn filter_after(rows: &Vec<Task>, d: &String) -> (out: Vec<Task>)
    ensures
        task_views(out@) == task_views(rows@).filter(sel_after(d@)),
{
    let ghost fp = sel_after(d@);
    let mut out: Vec<Task> = Vec::new();
    let mut i: usize = 0;
    proof {
        assert(task_views(rows@).take(0) =~= Seq::<TaskV>::empty());
        assert(task_views(out@) =~= task_views(rows@).take(0).filter(fp)) by {
            reveal(Seq::filter);
        }
    }
    while i < rows.len()
        invariant
            0 <= i <= rows.len(),
            fp == sel_after(d@),
            task_views(out@) == task_views(rows@).take(i as int).filter(fp),
        decreases rows.len() - i,
    {
        proof {
            assert(task_views(rows@).take(i as int + 1) =~= task_views(rows@).take(
                i as int).push(rows@[i as int]@));
            crate::seqs::lemma_filter_push(task_views(rows@).take(i as int), rows@[i as int]@, fp);
        }
        if crate::model::str_lt(d.as_str(), rows[i].target_date.as_str()) {
            let d2 = rows[i].duplicate();
            out.push(d2);
            proof {
                assert(task_views(out@) =~= task_views(rows@).take(i as int).filter(fp).push(
                    rows@[i as int]@));
            }
        }
        i = i + 1;
    }
    proof {
        assert(task_views(rows@).take(rows@.len() as int) =~= task_views(rows@));
    }
    out
}

/// Lists every task dated today, in manual order.
pub fn list_today(conn: &rusqlite::Connection) -> (r: Result<Vec<Task>, String>)
    ensures
        r matches Ok(v) ==> exists|day: crate::dates::Date|
            #[trigger] crate::dates::date_valid(day) && 1 <= day.year <= 9999 && listing(
            tasks_table(*conn),
            task_views(v@),
            sel_on_date(crate::dates::date_text(day)),
        ),
{
    let today = crate::store::today_date()?;
    let d = crate::dates::format_date(&today);
    let rows = select_all_tasks(conn)?;
    let out = filter_on_date(&rows, &d);
    proof {
        lemma_select_views(tasks_table(*conn), rows@);
        lemma_listing_from_filter(tasks_table(*conn), task_views(rows@), sel_on_date(d@));
    }
    Ok(out)
}

/// The three panes of the overview: today's tasks, today's rolled-over
/// tasks, and everything dated later.
pub fn list_overview(conn: &rusqlite::Connection) -> (r: Result<
    crate::model::TaskOverview,
    String,
>)
    ensures
        r matches Ok(v) ==> exists|day: crate::dates::Date|
            #[trigger] crate::dates::date_valid(day) && 1 <= day.year <= 9999 && {
                let d = crate::dates::date_text(day);
                &&& listing(tasks_table(*conn), task_views(v.today@), sel_partition(d, false))
                &&& listing(tasks_table(*conn), task_views(v.rolled_over@), sel_partition(d, true))
                &&& listing(tasks_table(*conn), task_views(v.upcoming@), sel_after(d))
            },
{
    let today = crate::store::today_date()?;
    let d = crate::dates::format_date(&today);
    let rows = select_all_tasks(conn)?;
    let today_tasks = filter_partition(&rows, &d, false);
    let rolled = filter_partition(&rows, &d, true);
    let upcoming = filter_after(&rows, &d);
    proof {
        lemma_select_views(tasks_table(*conn), rows@);
        lemma_listing_from_filter(tasks_table(*conn), task_views(rows@), sel_partition(d@, false));
        lemma_listing_from_filter(tasks_table(*conn), task_views(rows@), sel_partition(d@, true));
        lemma_listing_from_filter(tasks_table(*conn), task_views(rows@), sel_after(d@));
    }
    Ok(crate::model::TaskOverview { today: today_tasks, rolled_over: rolled, upcoming })
}

/// Whether some stored tag carries the given name.
pub open spec fn tag_name_listed(m: Map<Seq<char>, crate::store::TagRowV>, name: Seq<char>) -> bool {
    exists|k: Seq<char>| #[trigger] m.dom().contains(k) && m[k].name == name
}

/// Every listed name belongs to a stored tag, every stored tag's name
/// is listed, and names come in ascending order.
pub open spec fn tag_listing_ok(m: Map<Seq<char>, crate::store::TagRowV>, v: Seq<String>) -> bool {
    &&& forall|i: int| 0 <= i < v.len() ==> tag_name_listed(m, (#[trigger] v[i])@)
    &&& forall|k: Seq<char>| #[trigger] m.dom().contains(k) ==> exists|i: int| 0 <= i < v.len()
        && (#[trigger] v[i])@ == m[k].name
    &&& forall|i: int, j: int|
        #![trigger v[i], v[j]]
        0 <= i < j < v.len() ==> crate::tags::seq_le(v[i]@, v[j]@)
}

/// Lists every tag name, in name order.
#[verifier::rlimit(100)]
pub fn list_tags(conn: &rusqlite::Connection) -> (r: Result<Vec<String>, String>)
    ensures
        r matches Ok(v) ==> tag_listing_ok(tags_table(*conn), v@),
{
    let rows = select_all_tags(conn)?;
    let ghost m = tags_table(*conn);
    let mut out: Vec<String> = Vec::new();
    let mut i: usize = 0;
    while i < rows.len()
        invariant
            0 <= i <= rows.len(),
            out@.len() == i,
            forall|k: int| 0 <= k < i ==> (#[trigger] out@[k])@ == rows@[k].name@,
            forall|w: int| 0 <= w < rows@.len() ==> #[trigger] m.contains_pair(
                rows@[w].id@,
                rows@[w]@,
            ),
            forall|k: Seq<char>| #[trigger] m.dom().contains(k) ==> exists|w: int|
                0 <= w < rows@.len() && #[trigger] rows@[w].id@ == k,
            forall|w1: int, w2: int|
                #![trigger rows@[w1].name@, rows@[w2].name@]
                0 <= w1 < w2 < rows@.len() ==> crate::tags::seq_le(rows@[w1].name@, rows@[w2].name@),
        decreases rows.len() - i,
    {
        out.push(rows[i].name.clone());
        i = i + 1;
    }
    proof {
        assert forall|w: int| 0 <= w < out@.len() implies tag_name_listed(
            m,
            (#[trigger] out@[w])@,
        ) by {
            assert(m.contains_pair(rows@[w].id@, rows@[w]@));
            assert(m.dom().contains(rows@[w].id@) && m[rows@[w].id@].name == out@[w]@);
        }
        assert forall|k: Seq<char>| #[trigger] m.dom().contains(k) implies exists|w: int|
            0 <= w < out@.len() && (#[trigger] out@[w])@ == m[k].name by {
            let w = choose|w: int| 0 <= w < rows@.len() && #[trigger] rows@[w].id@ == k;
            assert(m.contains_pair(rows@[w].id@, rows@[w]@));
            assert(out@[w]@ == m[k].name);
        }
        assert forall|w1: int, w2: int|
            #![trigger out@[w1], out@[w2]]
            0 <= w1 < w2 < out@.len() implies crate::tags::seq_le(out@[w1]@, out@[w2]@) by {
            assert(out@[w1]@ == rows@[w1].name@ && out@[w2]@ == rows@[w2].name@);
            assert(crate::tags::seq_le(rows@[w1].name@, rows@[w2].name@));
        }
        assert(tag_listing_ok(m, out@));
    }
    Ok(out)
}

/// Deletes a task; its join-table links go with it.
pub fn delete_task(conn: &mut rusqlite::Connection, id: &String) -> (r: Result<(), String>)
    ensures
        notes_state(*final(conn)) == notes_state(*old(conn)),
        checkin_state(*final(conn)) == checkin_state(*old(conn)),
        schema_state(*final(conn)) == schema_state(*old(conn)),
        tags_table(*final(conn)) == tags_table(*old(conn)),
        r is Ok ==> tasks_table(*final(conn)) == tasks_table(*old(conn)).remove(id@),
        r is Ok ==> task_tags_rel(*final(conn)) == task_tags_rel(*old(conn)).filter(
            |p: (Seq<char>, Seq<char>)| p.0 != id@,
        ),
        r is Err ==> tasks_table(*final(conn)) == tasks_table(*old(conn)),
{
    crate::store::delete_task_row(conn, id)
}

/// A stored row after a timer-field write: new timer state and expiry,
/// a fresh update stamp, the tag list rewritten, all else kept.
pub open spec fn timer_view(
    prev: TaskV,
    state: Seq<char>,
    ends: Option<Seq<char>>,
    u: Seq<char>,
) -> TaskV {
    TaskV {
        timer_state: Some(state),
        timer_ends_at: ends,
        updated_at: u,
        tags: rewrite_tags(prev.tags),
        ..prev
    }
}

/// The table after a timer write on `id`: the row got the new timer
/// fields under some update stamp.
pub open spec fn timer_write(
    m0: Map<Seq<char>, TaskV>,
    m1: Map<Seq<char>, TaskV>,
    id: Seq<char>,
    state: Seq<char>,
    ends: Option<Seq<char>>,
) -> bool {
    exists|u: Seq<char>| m1 == m0.insert(id, #[trigger] timer_view(m0[id], state, ends, u))
}

/// Writes a full row back with some fields changed, returning the row
/// as stored; shared by the field-level update operations.
fn write_back(conn: &mut rusqlite::Connection, task: Task) -> (r: Result<Task, String>)
    ensures
        notes_state(*final(conn)) == notes_state(*old(conn)),
        checkin_state(*final(conn)) == checkin_state(*old(conn)),
        schema_state(*final(conn)) == schema_state(*old(conn)),
        tags_table(*final(conn)) == tags_table(*old(conn)),
        task_tags_rel(*final(conn)) == task_tags_rel(*old(conn)),
        r matches Ok(t) ==> {
            &&& t@ == (TaskV { tags: rewrite_tags(task@.tags), ..task@ })
            &&& tasks_table(*final(conn)) == if tasks_table(*old(conn)).dom().contains(task.id@) {
                tasks_table(*old(conn)).insert(task.id@, t@)
            } else {
                tasks_table(*old(conn))
            }
        },
        r is Err ==> tasks_table(*final(conn)) == tasks_table(*old(conn)),
{
    let csv = crate::tags::normalize_tags(&task.tags);
    let ghost v0 = task@;
    let mut task2 = task;
    task2.tags = crate::tags::parse_tags(csv.as_str());
    proof {
        assert(task2@ =~= (TaskV { tags: rewrite_tags(v0.tags), ..v0 }));
        assert(crate::store::stored_task(task2@, csv@) =~= task2@);
    }
    crate::store::update_task_row(conn, &task2, &csv)?;
    Ok(task2)
}

/// Sets a task's timer running until the given instant.
pub fn start_timer(conn: &mut rusqlite::Connection, id: &str, ends_at: &str) -> (r: Result<
    (),
    String,
>)
    ensures
        notes_state(*final(conn)) == notes_state(*old(conn)),
        checkin_state(*final(conn)) == checkin_state(*old(conn)),
        schema_state(*final(conn)) == schema_state(*old(conn)),
        tags_table(*final(conn)) == tags_table(*old(conn)),
        task_tags_rel(*final(conn)) == task_tags_rel(*old(conn)),
        r is Ok && !tasks_table(*old(conn)).dom().contains(id@) ==> tasks_table(*final(conn))
            == tasks_table(*old(conn)),
        r is Ok && tasks_table(*old(conn)).dom().contains(id@) ==> timer_write(
            tasks_table(*old(conn)),
            tasks_table(*final(conn)),
            id@,
            "running"@,
            Some(ends_at@),
        ),
{
    let rows = select_all_tasks(conn)?;
    match find_task(&rows, id) {
        None => {
            proof {
                if tasks_table(*conn).dom().contains(id@) {
                    let w = choose|w: int| 0 <= w < rows@.len() && #[trigger] rows@[w].id@ == id@;
                }
            }
            Ok(())
        },
        Some(t) => {
            proof {
                let w = choose|w: int| 0 <= w < rows@.len() && rows@[w]@ == t@;
                assert(tasks_table(*conn).contains_pair(rows@[w].id@, rows@[w]@));
                assert(rows@[w].id@ == rows@[w]@.id);
            }
            let mut m = t;
            m.timer_state = Some(String::from_str("running"));
            m.timer_ends_at = Some(String::from_str(ends_at));
            m.updated_at = now_rfc3339();
            let ghost prev = tasks_table(*old(conn))[id@];
            let t2 = write_back(conn, m)?;
            proof {
                assert(t2@ =~= timer_view(prev, "running"@, Some(ends_at@), t2@.updated_at));
            }
            Ok(())
        },
    }
}

/// Marks a task's timer finished.
pub fn finish_timer(conn: &mut rusqlite::Connection, id: &str) -> (r: Result<(), String>)
    ensures
        notes_state(*final(conn)) == notes_state(*old(conn)),
        checkin_state(*final(conn)) == checkin_state(*old(conn)),
        schema_state(*final(conn)) == schema_state(*old(conn)),
        tags_table(*final(conn)) == tags_table(*old(conn)),
        task_tags_rel(*final(conn)) == task_tags_rel(*old(conn)),
        r is Ok && !tasks_table(*old(conn)).dom().contains(id@) ==> tasks_table(*final(conn))
            == tasks_table(*old(conn)),
        r is Ok && tasks_table(*old(conn)).dom().contains(id@) ==> timer_write(
            tasks_table(*old(conn)),
            tasks_table(*final(conn)),
            id@,
            "finished"@,
            None,
        ),
{
    let rows = select_all_tasks(conn)?;
    match find_task(&rows, id) {
        None => {
            proof {
                if tasks_table(*conn).dom().contains(id@) {
                    let w = choose|w: int| 0 <= w < rows@.len() && #[trigger] rows@[w].id@ == id@;
                }
            }
            Ok(())
        },
        Some(t) => {
            proof {
                let w = choose|w: int| 0 <= w < rows@.len() && rows@[w]@ == t@;
                assert(tasks_table(*conn).contains_pair(rows@[w].id@, rows@[w]@));
                assert(rows@[w].id@ == rows@[w]@.id);
            }
            let mut m = t;
            m.timer_state = Some(String::from_str("finished"));
            m.timer_ends_at = None;
            m.updated_at = now_rfc3339();
            let ghost prev = tasks_table(*old(conn))[id@];
            let t2 = write_back(conn, m)?;
            proof {
                assert(t2@ =~= timer_view(prev, "finished"@, None, t2@.updated_at));
            }
            Ok(())
        },
    }
}

/// Pauses a task's timer.
pub fn stop_timer(conn: &mut rusqlite::Connection, id: &str) -> (r: Result<(), String>)
    ensures
        notes_state(*final(conn)) == notes_state(*old(conn)),
        checkin_state(*final(conn)) == checkin_state(*old(conn)),
        schema_state(*final(conn)) == schema_state(*old(conn)),
        tags_table(*final(conn)) == tags_table(*old(conn)),
        task_tags_rel(*final(conn)) == task_tags_rel(*old(conn)),
        r is Ok && !tasks_table(*old(conn)).dom().contains(id@) ==> tasks_table(*final(conn))
            == tasks_table(*old(conn)),
        r is Ok && tasks_table(*old(conn)).dom().contains(id@) ==> timer_write(
            tasks_table(*old(conn)),
            tasks_table(*final(conn)),
            id@,
            "paused"@,
            None,
        ),
{
    let rows = select_all_tasks(conn)?;
    match find_task(&rows, id) {
        None => {
            proof {
                if tasks_table(*conn).dom().contains(id@) {
                    let w = choose|w: int| 0 <= w < rows@.len() && #[trigger] rows@[w].id@ == id@;
                }
            }
            Ok(())
        },
        Some(t) => {
            proof {
                let w = choose|w: int| 0 <= w < rows@.len() && rows@[w]@ == t@;
                assert(tasks_table(*conn).contains_pair(rows@[w].id@, rows@[w]@));
                assert(rows@[w].id@ == rows@[w]@.id);
            }
            let mut m = t;
            m.timer_state = Some(String::from_str("paused"));
            m.timer_ends_at = None;
            m.updated_at = now_rfc3339();
            let ghost prev = tasks_table(*old(conn))[id@];
            let t2 = write_back(conn, m)?;
            proof {
                assert(t2@ =~= timer_view(prev, "paused"@, None, t2@.updated_at));
            }
            Ok(())
        },
    }
}

/// Sets a task's status. Completing a task also re-homes it to the end
/// of its partition's manual order; other statuses leave the order
/// untouched.
pub fn update_status(conn: &mut rusqlite::Connection, id: &str, status: &str) -> (r: Result<
    Task,
    String,
>)
    ensures
        notes_state(*final(conn)) == notes_state(*old(conn)),
        checkin_state(*final(conn)) == checkin_state(*old(conn)),
        schema_state(*final(conn)) == schema_state(*old(conn)),
        tags_table(*final(conn)) == tags_table(*old(conn)),
        task_tags_rel(*final(conn)) == task_tags_rel(*old(conn)),
        r matches Ok(t) ==> {
            &&& tasks_table(*old(conn)).dom().contains(id@)
            &&& t.id@ == id@
            &&& t@ == (TaskV {
                status: status@,
                sort_order: t@.sort_order,
                updated_at: t@.updated_at,
                tags: rewrite_tags(tasks_table(*old(conn))[id@].tags),
                ..tasks_table(*old(conn))[id@]
            })
            &&& tasks_table(*final(conn)) == tasks_table(*old(conn)).insert(id@, t@)
            &&& status@ == "done"@ ==> next_order_ok(
                tasks_table(*old(conn)),
                tasks_table(*old(conn))[id@].target_date,
                tasks_table(*old(conn))[id@].rolled_over,
                t@.sort_order,
            )
            &&& status@ != "done"@ ==> t@.sort_order == tasks_table(*old(conn))[id@].sort_order
        },
{
    let task = get_task(conn, id)?;
    let mut m = task;
    m.status = String::from_str(status);
    m.updated_at = now_rfc3339();
    if str_eq(status, "done") {
        let pos = next_sort_order(conn, &m.target_date, m.rolled_over)?;
        m.sort_order = pos;
    }
    let ghost prev = tasks_table(*old(conn))[id@];
    let out = write_back(conn, m)?;
    proof {
        assert(out@ =~= (TaskV {
            status: status@,
            sort_order: out@.sort_order,
            updated_at: out@.updated_at,
            tags: rewrite_tags(prev.tags),
            ..prev
        }));
    }
    Ok(out)
}

/// `update_status` under its command-facing name.
pub fn set_status(conn: &mut rusqlite::Connection, id: &str, status: &str) -> (r: Result<
    Task,
    String,
>)
    ensures
        notes_state(*final(conn)) == notes_state(*old(conn)),
        checkin_state(*final(conn)) == checkin_state(*old(conn)),
        schema_state(*final(conn)) == schema_state(*old(conn)),
        r matches Ok(t) ==> tasks_table(*old(conn)).dom().contains(id@) && tasks_table(
            *final(conn),
        ) == tasks_table(*old(conn)).insert(id@, t@) && t@.status == status@,
{
    update_status(conn, id, status)
}

/// Rewriting a rewritten tag list changes nothing more.
pub proof fn lemma_rewrite_idempotent(ts: Seq<Seq<char>>)
    ensures
        rewrite_tags(rewrite_tags(ts)) == rewrite_tags(ts),
{
    let csv = join_commas(clean_tags_spec(ts));
    lemma_rewrite_stable(csv);
}

/// The row an update stores: every mutable field replaced from the
/// input, rollover and live-timer state reset, identity and creation
/// stamp kept.
pub open spec fn updated_view(
    inp: crate::model::TaskInputV,
    prev: TaskV,
    sort: int,
    now: Seq<char>,
) -> TaskV {
    TaskV {
        id: prev.id,
        title: inp.title,
        notes: inp.notes,
        tags: roundtrip_tags(normalize_task_tags_spec(inp.tags)),
        target_date: inp.target_date,
        status: inp.status,
        progress_percent: clamp_spec(inp.progress_percent, 0, 100),
        deadline_at: inp.deadline_at,
        is_recurring: inp.is_recurring,
        recurrence_type: crate::model::rec_type_spec(inp),
        recurrence_interval: Some(crate::model::rec_interval_spec(inp)),
        recurrence_weekdays: crate::model::rec_weekdays_spec(inp),
        timer_enabled: inp.timer_enabled,
        timer_minutes: crate::model::timer_minutes_spec(inp),
        timer_state: crate::model::timer_state_spec(inp),
        timer_ends_at: None,
        rolled_over: false,
        rolled_from_date: None,
        sort_order: sort,
        created_at: prev.created_at,
        updated_at: now,
    }
}

/// Replaces every mutable field of a task from validated input; the
/// rollover and live-timer state reset, tags are re-normalized and
/// re-mirrored, and the manual position is kept only while the task
/// stays in its un-rolled partition on the same date.
#[verifier::rlimit(100)]
pub fn update_task(conn: &mut rusqlite::Connection, id: &str, input: TaskInput) -> (r: Result<
    Task,
    String,
>)
    ensures
        notes_state(*final(conn)) == notes_state(*old(conn)),
        checkin_state(*final(conn)) == checkin_state(*old(conn)),
        schema_state(*final(conn)) == schema_state(*old(conn)),
        r matches Ok(t) ==> {
            &&& tasks_table(*old(conn)).dom().contains(id@)
            &&& t@ == updated_view(input@, tasks_table(*old(conn))[id@], t@.sort_order,
                t@.updated_at)
            &&& tasks_table(*final(conn)) == tasks_table(*old(conn)).insert(id@, t@)
            &&& (tasks_table(*old(conn))[id@].target_date == input.target_date@
                && !tasks_table(*old(conn))[id@].rolled_over) ==> t@.sort_order == tasks_table(
                *old(conn),
            )[id@].sort_order
            &&& !(tasks_table(*old(conn))[id@].target_date == input.target_date@
                && !tasks_table(*old(conn))[id@].rolled_over) ==> next_order_ok(
                tasks_table(*old(conn)),
                input.target_date@,
                false,
                t@.sort_order,
            )
            &&& tags_extended(tags_table(*old(conn)), tags_table(*final(conn)))
            &&& links_except(task_tags_rel(*old(conn)), task_tags_rel(*final(conn)), id@)
            &&& tags_synced(
                tags_table(*final(conn)),
                task_tags_rel(*final(conn)),
                id@,
                normalize_task_tags_spec(input@.tags),
            )
        },
{
    let existing = get_task(conn, id)?;
    let now = now_rfc3339();
    let sort_order = if str_eq(existing.target_date.as_str(), input.target_date.as_str())
        && !existing.rolled_over {
        existing.sort_order
    } else {
        next_sort_order(conn, &input.target_date, false)?
    };
    let normalized = crate::tags::normalize_task_tags(&input.tags);
    let tags_csv = crate::tags::normalize_tags(&normalized);
    proof {
        crate::tags::lemma_dedup_wf(input@.tags, Set::empty());
        crate::tags::lemma_clean_identity(normalized.deep_view());
    }
    let (_, rec_type, rec_interval, rec_weekdays, _, timer_minutes, timer_state) =
        crate::model::normalize_input(&input);
    let progress: i32 = if input.progress_percent < 0 {
        0
    } else if input.progress_percent > 100 {
        100
    } else {
        input.progress_percent
    };
    let task = Task {
        id: existing.id,
        title: input.title.clone(),
        notes: crate::model::clone_opt_string(&input.notes),
        tags: crate::tags::parse_tags(tags_csv.as_str()),
        target_date: input.target_date.clone(),
        status: input.status.clone(),
        progress_percent: progress,
        deadline_at: crate::model::clone_opt_string(&input.deadline_at),
        is_recurring: input.is_recurring,
        recurrence_type: rec_type,
        recurrence_interval: Some(rec_interval),
        recurrence_weekdays: rec_weekdays,
        timer_enabled: input.timer_enabled,
        timer_minutes,
        timer_state,
        timer_ends_at: None,
        rolled_over: false,
        rolled_from_date: None,
        sort_order,
        created_at: existing.created_at,
        updated_at: now,
    };
    proof {
        assert(task@ =~= updated_view(input@, tasks_table(*old(conn))[id@], task@.sort_order,
            task@.updated_at));
        assert(crate::store::stored_task(task@, tags_csv@) =~= task@);
    }
    crate::store::update_task_row(conn, &task, &tags_csv)?;
    sync_task_tags(conn, &task.id, &normalized)?;
    Ok(task)
}

/// The nearest manual-order neighbor of a task on one side of its
/// partition.
pub open spec fn is_neighbor(m: Map<Seq<char>, TaskV>, me: TaskV, nid: Seq<char>, up: bool) -> bool {
    &&& m.dom().contains(nid) && nid != me.id
    &&& in_partition(m[nid], me.target_date, me.rolled_over)
    &&& if up { m[nid].sort_order < me.sort_order } else { m[nid].sort_order > me.sort_order }
    &&& forall|k: Seq<char>| #[trigger] m.dom().contains(k) && k != me.id && in_partition(
        m[k],
        me.target_date,
        me.rolled_over,
    ) && (if up { m[k].sort_order < me.sort_order } else { m[k].sort_order > me.sort_order })
        ==> (if up { m[k].sort_order <= m[nid].sort_order } else {
            m[k].sort_order >= m[nid].sort_order })
}

/// No task sits on that side of the partition.
pub open spec fn no_neighbor(m: Map<Seq<char>, TaskV>, me: TaskV, up: bool) -> bool {
    forall|k: Seq<char>| #[trigger] m.dom().contains(k) && k != me.id && in_partition(
        m[k],
        me.target_date,
        me.rolled_over,
    ) ==> !(if up { m[k].sort_order < me.sort_order } else { m[k].sort_order > me.sort_order })
}

/// The table after two tasks swap manual positions.
pub open spec fn swapped_tables(
    m: Map<Seq<char>, TaskV>,
    id: Seq<char>,
    nid: Seq<char>,
    u1: Seq<char>,
    u2: Seq<char>,
) -> Map<Seq<char>, TaskV> {
    m.insert(
        id,
        TaskV {
            sort_order: m[nid].sort_order,
            updated_at: u1,
            tags: rewrite_tags(m[id].tags),
            ..m[id]
        },
    ).insert(
        nid,
        TaskV {
            sort_order: m[id].sort_order,
            updated_at: u2,
            tags: rewrite_tags(m[nid].tags),
            ..m[nid]
        },
    )
}

/// Swaps a task's manual position with its nearest neighbor above or
/// below in the same partition; a no-op when no neighbor exists there.
#[verifier::rlimit(100)]
pub fn move_task(conn: &mut rusqlite::Connection, id: &str, direction: &str) -> (r: Result<
    (),
    String,
>)
    ensures
        notes_state(*final(conn)) == notes_state(*old(conn)),
        checkin_state(*final(conn)) == checkin_state(*old(conn)),
        schema_state(*final(conn)) == schema_state(*old(conn)),
        tags_table(*final(conn)) == tags_table(*old(conn)),
        task_tags_rel(*final(conn)) == task_tags_rel(*old(conn)),
        !(direction@ == "up"@ || direction@ == "down"@) ==> r is Err && tasks_table(*final(conn))
            == tasks_table(*old(conn)),
        r is Ok ==> tasks_table(*old(conn)).dom().contains(id@),
        r is Ok && no_neighbor(
            tasks_table(*old(conn)),
            tasks_table(*old(conn))[id@],
            direction@ == "up"@,
        ) ==> tasks_table(*final(conn)) == tasks_table(*old(conn)),
        r is Ok && !no_neighbor(
            tasks_table(*old(conn)),
            tasks_table(*old(conn))[id@],
            direction@ == "up"@,
        ) ==> exists|nid: Seq<char>, u1: Seq<char>, u2: Seq<char>|
            is_neighbor(tasks_table(*old(conn)), tasks_table(*old(conn))[id@], nid,
                direction@ == "up"@) && tasks_table(*final(conn)) == #[trigger] swapped_tables(
                tasks_table(*old(conn)),
                id@,
                nid,
                u1,
                u2,
            ),
{
    let rows = select_all_tasks(conn)?;
    let me = match find_task(&rows, id) {
        Some(t) => t,
        None => {
            return Err(String::from_str("Task not found"));
        },
    };
    proof {
        let w = choose|w: int| 0 <= w < rows@.len() && rows@[w]@ == me@;
        assert(tasks_table(*conn).contains_pair(rows@[w].id@, rows@[w]@));
        assert(rows@[w].id@ == rows@[w]@.id);
    }
    proof {
        reveal_strlit("up");
        reveal_strlit("down");
        assert("up"@.len() == 2 && "down"@.len() == 4);
    }
    let up = str_eq(direction, "up");
    let down = str_eq(direction, "down");
    if !up && !down {
        return Err(String::from_str("Invalid move direction"));
    }
    let ghost m0 = tasks_table(*conn);
    let mut best: Option<usize> = None;
    let mut i: usize = 0;
    while i < rows.len()
        invariant
            0 <= i <= rows.len(),
            up != down,
            me@ == m0[id@],
            me.id@ == id@,
            forall|w: int| 0 <= w < rows@.len() ==> #[trigger] m0.contains_pair(
                rows@[w].id@,
                rows@[w]@,
            ),
            best matches Some(b) ==> 0 <= b < rows@.len() && rows@[b as int].id@ != id@
                && in_partition(rows@[b as int]@, me@.target_date, me@.rolled_over)
                && (if up { rows@[b as int]@.sort_order < me@.sort_order } else {
                    rows@[b as int]@.sort_order > me@.sort_order }),
            forall|w: int| 0 <= w < i && #[trigger] rows@[w].id@ != id@ && in_partition(
                rows@[w]@,
                me@.target_date,
                me@.rolled_over,
            ) && (if up { rows@[w]@.sort_order < me@.sort_order } else {
                rows@[w]@.sort_order > me@.sort_order })
                ==> (best matches Some(b) && (if up {
                    rows@[w]@.sort_order <= rows@[b as int]@.sort_order } else {
                    rows@[w]@.sort_order >= rows@[b as int]@.sort_order })),
        decreases rows.len() - i,
    {
        let cand_ok = !str_eq(rows[i].id.as_str(), id)
            && str_eq(rows[i].target_date.as_str(), me.target_date.as_str())
            && rows[i].rolled_over == me.rolled_over
            && (if up { rows[i].sort_order < me.sort_order } else {
                rows[i].sort_order > me.sort_order });
        if cand_ok {
            let better = match &best {
                None => true,
                Some(b) => if up { rows[i].sort_order > rows[*b].sort_order } else {
                    rows[i].sort_order < rows[*b].sort_order },
            };
            if better {
                best = Some(i);
            }
        }
        i = i + 1;
    }
    match best {
        None => {
            proof {
                assert forall|k: Seq<char>| #[trigger] m0.dom().contains(k) && k != id@
                    && in_partition(m0[k], m0[id@].target_date, m0[id@].rolled_over) implies !(
                    if up { m0[k].sort_order < m0[id@].sort_order } else {
                        m0[k].sort_order > m0[id@].sort_order }) by {
                    let w = choose|w: int| 0 <= w < rows@.len() && #[trigger] rows@[w].id@ == k;
                    assert(m0.contains_pair(rows@[w].id@, rows@[w]@));
                }
            }
            Ok(())
        },
        Some(b) => {
            let neighbor = rows[b].duplicate();
            proof {
                assert(m0.contains_pair(rows@[b as int].id@, rows@[b as int]@));
                assert(neighbor.id@ == neighbor@.id);
            }
            let ghost nid = neighbor.id@;
            let my_sort = me.sort_order;
            let mut m1 = me;
            m1.sort_order = neighbor.sort_order;
            m1.updated_at = now_rfc3339();
            let t1 = write_back(conn, m1)?;
            let mut m2 = neighbor;
            m2.sort_order = my_sort;
            m2.updated_at = now_rfc3339();
            proof {
                assert(tasks_table(*conn).dom().contains(nid));
                assert(tasks_table(*conn)[nid] == m0[nid]);
            }
            let t2 = write_back(conn, m2)?;
            proof {
                assert(!no_neighbor(m0, m0[id@], up)) by {
                    assert(m0.dom().contains(nid) && nid != id@ && in_partition(
                        m0[nid],
                        m0[id@].target_date,
                        m0[id@].rolled_over,
                    ) && (if up { m0[nid].sort_order < m0[id@].sort_order } else {
                        m0[nid].sort_order > m0[id@].sort_order }));
                }
                assert(is_neighbor(m0, m0[id@], nid, up)) by {
                    assert forall|k: Seq<char>| #[trigger] m0.dom().contains(k) && k != id@
                        && in_partition(m0[k], m0[id@].target_date, m0[id@].rolled_over)
                        && (if up { m0[k].sort_order < m0[id@].sort_order } else {
                            m0[k].sort_order > m0[id@].sort_order }) implies (if up {
                        m0[k].sort_order <= m0[nid].sort_order } else {
                        m0[k].sort_order >= m0[nid].sort_order }) by {
                        let w = choose|w: int| 0 <= w < rows@.len() && #[trigger] rows@[w].id@
                            == k;
                        assert(m0.contains_pair(rows@[w].id@, rows@[w]@));
                    }
                }
                assert(t1@ =~= (TaskV {
                    sort_order: m0[nid].sort_order,
                    updated_at: t1@.updated_at,
                    tags: rewrite_tags(m0[id@].tags),
                    ..m0[id@]
                }));
                assert(t2@ =~= (TaskV {
                    sort_order: m0[id@].sort_order,
                    updated_at: t2@.updated_at,
                    tags: rewrite_tags(m0[nid].tags),
                    ..m0[nid]
                }));
                assert(tasks_table(*conn) == swapped_tables(m0, id@, nid, t1@.updated_at,
                    t2@.updated_at));
            }
            Ok(())
        },
    }
}

/// A row after a manual reposition: new position and update stamp, the
/// tag list rewritten, all else kept.
pub open spec fn reordered_view(prev: TaskV, pos: int, u: Seq<char>) -> TaskV {
    TaskV { sort_order: pos, updated_at: u, tags: rewrite_tags(prev.tags), ..prev }
}

pub open spec fn reorder_rel(a: TaskV, b: TaskV) -> bool {
    b == (TaskV { sort_order: b.sort_order, updated_at: b.updated_at, tags: rewrite_tags(a.tags),
        ..a })
}

pub open spec fn id_listed(ids: Seq<Seq<char>>, k: Seq<char>) -> bool {
    exists|j: int| 0 <= j < ids.len() && ids[j] == k
}

/// Assigns manual positions 1, 2, 3, .. by position in the given id
/// list; ids with no stored row are skipped, and of a repeated id the
/// last position wins.
#[verifier::rlimit(100)]
pub fn reorder_tasks(conn: &mut rusqlite::Connection, task_ids: &Vec<String>) -> (r: Result<
    (),
    String,
>)
    requires
        task_ids@.len() <= 0x7fffffff,
    ensures
        notes_state(*final(conn)) == notes_state(*old(conn)),
        checkin_state(*final(conn)) == checkin_state(*old(conn)),
        schema_state(*final(conn)) == schema_state(*old(conn)),
        tags_table(*final(conn)) == tags_table(*old(conn)),
        task_tags_rel(*final(conn)) == task_tags_rel(*old(conn)),
        r is Ok ==> {
            &&& tasks_table(*final(conn)).dom() == tasks_table(*old(conn)).dom()
            &&& forall|k: Seq<char>| #[trigger] tasks_table(*old(conn)).dom().contains(k)
                && !id_listed(task_ids.deep_view(), k) ==> tasks_table(*final(conn))[k]
                    == tasks_table(*old(conn))[k]
            &&& forall|j: int| 0 <= j < task_ids.deep_view().len() && tasks_table(
                *old(conn),
            ).dom().contains(#[trigger] task_ids.deep_view()[j]) && (forall|j2: int|
                j < j2 < task_ids.deep_view().len() ==> task_ids.deep_view()[j2]
                    != task_ids.deep_view()[j]) ==> exists|u: Seq<char>|
                tasks_table(*final(conn))[task_ids.deep_view()[j]] == #[trigger] reordered_view(
                    tasks_table(*old(conn))[task_ids.deep_view()[j]],
                    j + 1,
                    u,
                )
        },
{
    let ghost m0 = tasks_table(*conn);
    let ghost ids = task_ids.deep_view();
    let mut i: usize = 0;
    while i < task_ids.len()
        invariant
            0 <= i <= task_ids.len(),
            task_ids@.len() <= 0x7fffffff,
            ids == task_ids.deep_view(),
            m0 == tasks_table(*old(conn)),
            notes_state(*conn) == notes_state(*old(conn)),
            checkin_state(*conn) == checkin_state(*old(conn)),
            schema_state(*conn) == schema_state(*old(conn)),
            tags_table(*conn) == tags_table(*old(conn)),
            task_tags_rel(*conn) == task_tags_rel(*old(conn)),
            tasks_table(*conn).dom() == m0.dom(),
            forall|k: Seq<char>| #[trigger] m0.dom().contains(k) ==> tasks_table(*conn)[k]
                == m0[k] || reorder_rel(m0[k], tasks_table(*conn)[k]),
            forall|k: Seq<char>| #[trigger] m0.dom().contains(k) && !id_listed(ids.take(i as int),
                k) ==> tasks_table(*conn)[k] == m0[k],
            forall|j: int| 0 <= j < i && m0.dom().contains(#[trigger] ids[j]) && (forall|j2: int|
                j < j2 < i ==> ids[j2] != ids[j]) ==> exists|u: Seq<char>|
                tasks_table(*conn)[ids[j]] == #[trigger] reordered_view(m0[ids[j]], j + 1, u),
        decreases task_ids.len() - i,
    {
        let ghost pre = tasks_table(*conn);
        let rows = select_all_tasks(conn)?;
        let found = find_task(&rows, task_ids[i].as_str());
        match found {
            Some(t) => {
                proof {
                    let w = choose|w: int| 0 <= w < rows@.len() && rows@[w]@ == t@;
                    assert(pre.contains_pair(rows@[w].id@, rows@[w]@));
                    assert(rows@[w].id@ == rows@[w]@.id);
                    assert(pre.dom().contains(ids[i as int]));
                    assert(t@ == pre[ids[i as int]]);
                }
                let mut m = t;
                m.sort_order = (i as i64) + 1;
                m.updated_at = now_rfc3339();
                let t2 = write_back(conn, m)?;
                proof {
                    lemma_rewrite_idempotent(m0[ids[i as int]].tags);
                    assert(t2@ =~= reordered_view(pre[ids[i as int]], i + 1, t2@.updated_at));
                    if pre[ids[i as int]] == m0[ids[i as int]] {
                        assert(t2@ =~= reordered_view(m0[ids[i as int]], i + 1, t2@.updated_at));
                    } else {
                        assert(reorder_rel(m0[ids[i as int]], pre[ids[i as int]]));
                        assert(t2@ =~= reordered_view(m0[ids[i as int]], i + 1, t2@.updated_at));
                    }
                    assert(reorder_rel(m0[ids[i as int]], t2@));
                }
            },
            None => {
                proof {
                    if pre.dom().contains(ids[i as int]) {
                        let w = choose|w: int| 0 <= w < rows@.len() && #[trigger] rows@[w].id@
                            == ids[i as int];
                        assert(pre.contains_pair(rows@[w].id@, rows@[w]@));
                        assert(false);
                    }
                }
            },
        }
        proof {
            assert forall|k: Seq<char>| #[trigger] m0.dom().contains(k) && !id_listed(
                ids.take(i as int + 1),
                k,
            ) implies tasks_table(*conn)[k] == m0[k] by {
                assert(!id_listed(ids.take(i as int), k)) by {
                    if id_listed(ids.take(i as int), k) {
                        let j = choose|j: int| 0 <= j < ids.take(i as int).len()
                            && ids.take(i as int)[j] == k;
                        assert(ids.take(i as int + 1)[j] == k);
                    }
                }
                assert(ids.take(i as int + 1)[i as int] != k);
                assert(ids[i as int] != k);
            }
            assert forall|j: int| 0 <= j < i + 1 && m0.dom().contains(#[trigger] ids[j]) && (
            forall|j2: int| j < j2 < i + 1 ==> ids[j2] != ids[j]) implies exists|u: Seq<char>|
                tasks_table(*conn)[ids[j]] == #[trigger] reordered_view(m0[ids[j]], j + 1, u) by {
                if j < i {
                    let u = choose|u: Seq<char>| pre[ids[j]] == #[trigger] reordered_view(
                        m0[ids[j]],
                        j + 1,
                        u,
                    );
                    assert(ids[i as int] != ids[j]);
                    assert(tasks_table(*conn)[ids[j]] == pre[ids[j]]);
                }
            }
        }
        i = i + 1;
    }
    proof {
        assert(ids.take(ids.len() as int) =~= ids);
        assert forall|k: Seq<char>| #[trigger] m0.dom().contains(k) && !id_listed(ids, k)
            implies tasks_table(*conn)[k] == m0[k] by {
            assert(!id_listed(ids.take(ids.len() as int), k));
        }
    }
    Ok(())
}

pub open spec fn opt_or(v: Option<Seq<char>>, d: Seq<char>) -> Seq<char> {
    match v {
        Some(x) => x,
        None => d,
    }
}

pub open spec fn opt_or_int(v: Option<int>, d: int) -> int {
    match v {
        Some(x) => x,
        None => d,
    }
}

/// Whether a stored row already is the occurrence of a recurring task
/// on a date: same title and recurrence signature, dated there.
pub open spec fn matches_occurrence(c: TaskV, t: TaskV, date: Seq<char>) -> bool {
    &&& c.title == t.title
    &&& c.target_date == date
    &&& c.is_recurring
    &&& opt_or(c.recurrence_type, ""@) == opt_or(t.recurrence_type, ""@)
    &&& opt_or_int(c.recurrence_interval, 1) == opt_or_int(t.recurrence_interval, 1)
    &&& opt_or(c.recurrence_weekdays, ""@) == opt_or(t.recurrence_weekdays, ""@)
}

/// The dedup guard of occurrence generation.
pub open spec fn occurrence_exists(m: Map<Seq<char>, TaskV>, t: TaskV, date: Seq<char>) -> bool {
    exists|k: Seq<char>| #[trigger] m.dom().contains(k) && matches_occurrence(m[k], t, date)
}

fn opt_str_coalesce_eq(a: &Option<String>, b: &Option<String>) -> (r: bool)
    ensures
        r == (opt_or(a.deep_view(), ""@) == opt_or(b.deep_view(), ""@)),
{
    proof {
        reveal_strlit("");
    }
    match (a, b) {
        (None, None) => true,
        (Some(x), None) => {
            let e = x.as_str().is_empty();
            proof {
                if e {
                    assert(x@ =~= ""@);
                }
            }
            e
        },
        (None, Some(y)) => {
            let e = y.as_str().is_empty();
            proof {
                if e {
                    assert(y@ =~= ""@);
                }
            }
            e
        },
        (Some(x), Some(y)) => str_eq(x.as_str(), y.as_str()),
    }
}

fn opt_i32_coalesce_eq(a: &Option<i32>, b: &Option<i32>) -> (r: bool)
    ensures
        r == (opt_or_int(crate::model::opt_int(*a), 1) == opt_or_int(
            crate::model::opt_int(*b),
            1,
        )),
{
    let va: i32 = match a {
        Some(x) => *x,
        None => 1,
    };
    let vb: i32 = match b {
        Some(x) => *x,
        None => 1,
    };
    va == vb
}

/// Whether one stored row carries a recurring task's occurrence
/// signature on the given date.
#[verifier::rlimit(100)]
fn row_matches(c: &Task, t: &Task, date: &String) -> (r: bool)
    ensures
        r == matches_occurrence(c@, t@, date@),
{
    str_eq(c.title.as_str(), t.title.as_str())
        && str_eq(c.target_date.as_str(), date.as_str())
        && c.is_recurring
        && opt_str_coalesce_eq(&c.recurrence_type, &t.recurrence_type)
        && opt_i32_coalesce_eq(&c.recurrence_interval, &t.recurrence_interval)
        && opt_str_coalesce_eq(&c.recurrence_weekdays, &t.recurrence_weekdays)
}

/// Whether a recurring task already has an occurrence with its
/// signature on the given date.
#[verifier::rlimit(100)]
#[verifier::spinoff_prover]
pub fn has_recurring_occurrence(
    conn: &rusqlite::Connection,
    task: &Task,
    date: &String,
) -> (r: Result<bool, String>)
    ensures
        r matches Ok(b) ==> b == occurrence_exists(tasks_table(*conn), task@, date@),
{
    let rows = select_all_tasks(conn)?;
    let ghost m = tasks_table(*conn);
    let mut i: usize = 0;
    while i < rows.len()
        invariant
            0 <= i <= rows.len(),
            m == tasks_table(*conn),
            forall|w: int| 0 <= w < rows@.len() ==> #[trigger] m.contains_pair(
                rows@[w].id@,
                rows@[w]@,
            ),
            forall|k: Seq<char>| #[trigger] m.dom().contains(k) ==> exists|w: int|
                0 <= w < rows@.len() && #[trigger] rows@[w].id@ == k,
            forall|w: int| 0 <= w < i ==> !matches_occurrence(#[trigger] rows@[w]@, task@, date@),
        decreases rows.len() - i,
    {
        let hit = row_matches(&rows[i], task, date);
        if hit {
            proof {
                assert(m.contains_pair(rows@[i as int].id@, rows@[i as int]@));
                assert(m.dom().contains(rows@[i as int].id@) && matches_occurrence(
                    m[rows@[i as int].id@],
                    task@,
                    date@,
                ));
                assert(occurrence_exists(m, task@, date@));
            }
            return Ok(true);
        }
        i = i + 1;
    }
    proof {
        if occurrence_exists(m, task@, date@) {
            let k = choose|k: Seq<char>| #[trigger] m.dom().contains(k) && matches_occurrence(
                m[k],
                task@,
                date@,
            );
            let w = choose|w: int| 0 <= w < rows@.len() && #[trigger] rows@[w].id@ == k;
            assert(m.contains_pair(rows@[w].id@, rows@[w]@));
            assert(false);
        }
    }
    Ok(false)
}

/// The row a generated occurrence stores.
pub open spec fn occurrence_view(
    src: TaskV,
    id: Seq<char>,
    date: Seq<char>,
    sort: int,
    now: Seq<char>,
) -> TaskV {
    TaskV {
        id: id,
        title: src.title,
        notes: src.notes,
        tags: roundtrip_tags(normalize_task_tags_spec(src.tags)),
        target_date: date,
        status: "todo"@,
        progress_percent: 0,
        deadline_at: src.deadline_at,
        is_recurring: true,
        recurrence_type: src.recurrence_type,
        recurrence_interval: Some(opt_or_int(src.recurrence_interval, 1)),
        recurrence_weekdays: src.recurrence_weekdays,
        timer_enabled: src.timer_enabled,
        timer_minutes: src.timer_minutes,
        timer_state: if src.timer_enabled { Some("idle"@) } else { None },
        timer_ends_at: None,
        rolled_over: false,
        rolled_from_date: None,
        sort_order: sort,
        created_at: now,
        updated_at: now,
    }
}

/// Inserts the next occurrence of a recurring task: a fresh todo row on
/// the given date that inherits the source's content and recurrence
/// signature, placed at the end of the destination partition.
#[verifier::rlimit(100)]
pub fn insert_next_occurrence(
    conn: &mut rusqlite::Connection,
    source: &Task,
    next_date: &String,
) -> (r: Result<(), String>)
    ensures
        notes_state(*final(conn)) == notes_state(*old(conn)),
        checkin_state(*final(conn)) == checkin_state(*old(conn)),
        schema_state(*final(conn)) == schema_state(*old(conn)),
        r is Ok ==> exists|nk: Seq<char>, so: int, u: Seq<char>|
            !tasks_table(*old(conn)).dom().contains(nk) && next_order_ok(
                tasks_table(*old(conn)),
                next_date@,
                false,
                so,
            ) && tasks_table(*final(conn)) == tasks_table(*old(conn)).insert(
                nk,
                #[trigger] occurrence_view(source@, nk, next_date@, so, u),
            ),
        r is Ok ==> occurrence_exists(tasks_table(*final(conn)), source@, next_date@),
        r is Ok ==> tags_extended(tags_table(*old(conn)), tags_table(*final(conn))),
{
    let id = new_uuid();
    let now = now_rfc3339();
    let sort_order = next_sort_order(conn, next_date, false)?;
    let normalized = crate::tags::normalize_task_tags(&source.tags);
    let tags_csv = crate::tags::normalize_tags(&normalized);
    proof {
        crate::tags::lemma_dedup_wf(source@.tags, Set::empty());
        crate::tags::lemma_clean_identity(normalized.deep_view());
    }
    let interval: i32 = match source.recurrence_interval {
        Some(x) => x,
        None => 1,
    };
    let timer_state = if source.timer_enabled {
        Some(String::from_str("idle"))
    } else {
        None
    };
    let task = Task {
        id,
        title: source.title.clone(),
        notes: crate::model::clone_opt_string(&source.notes),
        tags: crate::tags::parse_tags(tags_csv.as_str()),
        target_date: next_date.clone(),
        status: String::from_str("todo"),
        progress_percent: 0,
        deadline_at: crate::model::clone_opt_string(&source.deadline_at),
        is_recurring: true,
        recurrence_type: crate::model::clone_opt_string(&source.recurrence_type),
        recurrence_interval: Some(interval),
        recurrence_weekdays: crate::model::clone_opt_string(&source.recurrence_weekdays),
        timer_enabled: source.timer_enabled,
        timer_minutes: source.timer_minutes,
        timer_state,
        timer_ends_at: None,
        rolled_over: false,
        rolled_from_date: None,
        sort_order,
        created_at: now.clone(),
        updated_at: now,
    };
    proof {
        assert(task@ =~= occurrence_view(source@, task.id@, next_date@, task@.sort_order,
            task@.created_at));
        assert(crate::store::stored_task(task@, tags_csv@) =~= task@);
    }
    insert_task_row(conn, &task, &tags_csv)?;
    let ghost mid = tasks_table(*conn);
    sync_task_tags(conn, &task.id, &normalized)?;
    proof {
        assert(tasks_table(*conn) == mid);
        assert(matches_occurrence(task@, source@, next_date@));
        assert(tasks_table(*conn).dom().contains(task.id@) && matches_occurrence(
            tasks_table(*conn)[task.id@],
            source@,
            next_date@,
        ));
    }
    Ok(())
}

/// For a completed recurring task: its next occurrence date is `nd`,
/// and the table either gained exactly one dedup-guarded occurrence row
/// there or stayed as the completion left it, depending on whether one
/// already existed (or the date falls outside the four-digit calendar).
pub open spec fn generation_ok(
    t: TaskV,
    m_done: Map<Seq<char>, TaskV>,
    m1: Map<Seq<char>, TaskV>,
    nd: crate::dates::Date,
) -> bool {
    &&& crate::recurrence::task_next_ok(t, crate::dates::date_of_text(t.target_date), nd)
    &&& (nd.year > 9999 || occurrence_exists(m_done, t, crate::dates::date_text(nd)) ==> m1
        == m_done)
    &&& (nd.year <= 9999 && !occurrence_exists(m_done, t, crate::dates::date_text(nd))
        ==> exists|nk: Seq<char>, so: int, u: Seq<char>| !m_done.dom().contains(nk) && m1
            == m_done.insert(nk, #[trigger] occurrence_view(
            t,
            nk,
            crate::dates::date_text(nd),
            so,
            u,
        )))
    &&& (nd.year <= 9999 ==> occurrence_exists(m1, t, crate::dates::date_text(nd)))
}

/// Marks a task done and, for a recurring task, generates its next
/// occurrence unless one with the same signature already exists: the
/// table gains at most that one dedup-guarded row, so completing twice
/// never yields two occurrences.
#[verifier::rlimit(100)]
pub fn mark_done_and_generate_next(conn: &mut rusqlite::Connection, id: &str) -> (r: Result<
    Task,
    String,
>)
    ensures
        notes_state(*final(conn)) == notes_state(*old(conn)),
        checkin_state(*final(conn)) == checkin_state(*old(conn)),
        schema_state(*final(conn)) == schema_state(*old(conn)),
        r matches Ok(t) ==> {
            let m_done = tasks_table(*old(conn)).insert(id@, t@);
            &&& tasks_table(*old(conn)).dom().contains(id@)
            &&& t@.status == "done"@
            &&& t.id@ == id@
            &&& !t@.is_recurring ==> tasks_table(*final(conn)) == m_done
            &&& t@.is_recurring ==> crate::dates::date_text_valid(t@.target_date)
                && exists|nd: crate::dates::Date| #[trigger] generation_ok(
                    t@,
                    m_done,
                    tasks_table(*final(conn)),
                    nd,
                )
        },
{
    let t = update_status(conn, id, "done")?;
    proof {
        reveal_strlit("done");
    }
    let ghost m_done = tasks_table(*conn);
    if t.is_recurring {
        match crate::dates::parse_date(t.target_date.as_str()) {
            Err(e) => {
                return Err(e);
            },
            Ok(base) => {
                proof {
                    crate::dates::lemma_day_number_year_bound(base);
                    crate::dates::lemma_leap_years_nonneg(base.year as int);
                }
                let next = crate::recurrence::next_occurrence_date(&t, base);
                if next.year <= 9999 {
                    let next_s = crate::dates::format_date(&next);
                    if !has_recurring_occurrence(conn, &t, &next_s)? {
                        insert_next_occurrence(conn, &t, &next_s)?;
                        proof {
                            let k = choose|k: Seq<char>|
                                #[trigger] tasks_table(*conn).dom().contains(k)
                                    && matches_occurrence(tasks_table(*conn)[k], t@, next_s@);
                            assert(tasks_table(*conn).dom().contains(id@));
                        }
                    }
                }
                proof {
                    assert(generation_ok(t@, m_done, tasks_table(*conn), next));
                }
            },
        }
    }
    Ok(t)
}

/// A row after rolling over: re-dated to today, flagged, remembering
/// the date it came from, repositioned, freshly stamped.
pub open spec fn rolled_view(prev: TaskV, today: Seq<char>, so: int, u: Seq<char>) -> TaskV {
    TaskV {
        target_date: today,
        rolled_over: true,
        rolled_from_date: Some(prev.target_date),
        sort_order: so,
        updated_at: u,
        tags: rewrite_tags(prev.tags),
        ..prev
    }
}

/// What one rollover sweep does to the task table: overdue unfinished
/// rows move to today's rolled partition, each placed above every
/// position that partition held before the sweep and at a position of
/// its own, and everything else stays put.
pub open spec fn rollover_rel(
    m0: Map<Seq<char>, TaskV>,
    m1: Map<Seq<char>, TaskV>,
    today: Seq<char>,
) -> bool {
    &&& m1.dom() == m0.dom()
    &&& forall|k: Seq<char>| #[trigger] m0.dom().contains(k) && overdue_on(m0[k], today)
        ==> exists|so: int, u: Seq<char>| m1[k] == #[trigger] rolled_view(m0[k], today, so, u)
    &&& forall|k: Seq<char>| #[trigger] m0.dom().contains(k) && !overdue_on(m0[k], today)
        ==> m1[k] == m0[k]
    &&& forall|k: Seq<char>, z: Seq<char>|
        #![trigger m1[k], m0[z]]
        m0.dom().contains(k) && overdue_on(m0[k], today) && m0.dom().contains(z)
            && in_partition(m0[z], today, true) ==> m0[z].sort_order < m1[k].sort_order
    &&& forall|k1: Seq<char>, k2: Seq<char>|
        #![trigger m1[k1], m1[k2]]
        m0.dom().contains(k1) && m0.dom().contains(k2) && k1 != k2 && overdue_on(m0[k1], today)
            && overdue_on(m0[k2], today) ==> m1[k1].sort_order != m1[k2].sort_order
}

/// Everything a successful rollover sweep guarantees: the table
/// relation, the count's zero case, and that the count enumerates the
/// moved tasks exactly.
pub open spec fn rollover_summary(
    m0: Map<Seq<char>, TaskV>,
    m1: Map<Seq<char>, TaskV>,
    today: Seq<char>,
    n: int,
) -> bool {
    &&& rollover_rel(m0, m1, today)
    &&& ((n == 0) <==> (forall|k: Seq<char>| #[trigger] m0.dom().contains(k) ==> !overdue_on(
        m0[k],
        today,
    )))
    &&& exists|ids: Seq<Seq<char>>| #[trigger] moved_ids_ok(ids, m0, today, n)
}

/// `ids` enumerates the overdue tasks of the table exactly once each,
/// so its length counts them.
pub open spec fn moved_ids_ok(
    ids: Seq<Seq<char>>,
    m0: Map<Seq<char>, TaskV>,
    today: Seq<char>,
    n: int,
) -> bool {
    &&& ids.no_duplicates()
    &&& ids.len() == n
    &&& forall|i: int| 0 <= i < ids.len() ==> m0.dom().contains(#[trigger] ids[i]) && overdue_on(
        m0[ids[i]],
        today,
    )
    &&& forall|k: Seq<char>| #[trigger] m0.dom().contains(k) && overdue_on(m0[k], today)
        ==> ids.contains(k)
}

/// Keeps the rows overdue on the given date.
fn filter_overdue(rows: &Vec<Task>, d: &String) -> (out: Vec<Task>)
    ensures
        task_views(out@) == task_views(rows@).filter(sel_overdue(d@)),
{
    let ghost fp = sel_overdue(d@);
    let mut out: Vec<Task> = Vec::new();
    let mut i: usize = 0;
    proof {
        assert(task_views(rows@).take(0) =~= Seq::<TaskV>::empty());
        assert(task_views(out@) =~= task_views(rows@).take(0).filter(fp)) by {
            reveal(Seq::filter);
        }
    }
    while i < rows.len()
        invariant
            0 <= i <= rows.len(),
            fp == sel_overdue(d@),
            task_views(out@) == task_views(rows@).take(i as int).filter(fp),
        decreases rows.len() - i,
    {
        proof {
            assert(task_views(rows@).take(i as int + 1) =~= task_views(rows@).take(
                i as int).push(rows@[i as int]@));
            crate::seqs::lemma_filter_push(task_views(rows@).take(i as int), rows@[i as int]@, fp);
        }
        if crate::model::str_lt(rows[i].target_date.as_str(), d.as_str())
            && !str_eq(rows[i].status.as_str(), "done") {
            let d2 = rows[i].duplicate();
            out.push(d2);
            proof {
                assert(task_views(out@) =~= task_views(rows@).take(i as int).filter(fp).push(
                    rows@[i as int]@));
            }
        }
        i = i + 1;
    }
    proof {
        assert(task_views(rows@).take(rows@.len() as int) =~= task_views(rows@));
    }
    out
}

/// Keeps the recurring rows.
fn filter_recurring(rows: &Vec<Task>) -> (out: Vec<Task>)
    ensures
        task_views(out@) == task_views(rows@).filter(sel_recurring()),
{
    let ghost fp = sel_recurring();
    let mut out: Vec<Task> = Vec::new();
    let mut i: usize = 0;
    proof {
        assert(task_views(rows@).take(0) =~= Seq::<TaskV>::empty());
        assert(task_views(out@) =~= task_views(rows@).take(0).filter(fp)) by {
            reveal(Seq::filter);
        }
    }
    while i < rows.len()
        invariant
            0 <= i <= rows.len(),
            fp == sel_recurring(),
            task_views(out@) == task_views(rows@).take(i as int).filter(fp),
        decreases rows.len() - i,
    {
        proof {
            assert(task_views(rows@).take(i as int + 1) =~= task_views(rows@).take(
                i as int).push(rows@[i as int]@));
            crate::seqs::lemma_filter_push(task_views(rows@).take(i as int), rows@[i as int]@, fp);
        }
        if rows[i].is_recurring {
            let d2 = rows[i].duplicate();
            out.push(d2);
            proof {
                assert(task_views(out@) =~= task_views(rows@).take(i as int).filter(fp).push(
                    rows@[i as int]@));
            }
        }
        i = i + 1;
    }
    proof {
        assert(task_views(rows@).take(rows@.len() as int) =~= task_views(rows@));
    }
    out
}

/// The daily rollover sweep for a given day: every task dated strictly
/// before it and not done moves to that day's rolled-over partition,
/// each at the end of the manual order, remembering the date it came
/// from. Returns how many tasks moved.
#[verifier::rlimit(100)]
pub fn rollover_tasks_on(conn: &mut rusqlite::Connection, today: &crate::dates::Date) -> (r:
    Result<usize, String>)
    requires
        crate::dates::date_valid(*today),
        today.year <= 9999,
    ensures
        notes_state(*final(conn)) == notes_state(*old(conn)),
        checkin_state(*final(conn)) == checkin_state(*old(conn)),
        schema_state(*final(conn)) == schema_state(*old(conn)),
        tags_table(*final(conn)) == tags_table(*old(conn)),
        task_tags_rel(*final(conn)) == task_tags_rel(*old(conn)),
        r matches Ok(n) ==> rollover_summary(
            tasks_table(*old(conn)),
            tasks_table(*final(conn)),
            crate::dates::date_text(*today),
            n as int,
        ),
{
    let ds = crate::dates::format_date(today);
    let rows = select_all_tasks(conn)?;
    let ghost m0 = tasks_table(*conn);
    let od = filter_overdue(&rows, &ds);
    proof {
        lemma_select_views(m0, rows@);
        lemma_listing_from_filter(m0, task_views(rows@), sel_overdue(ds@));
    }
    let ghost ovs = task_views(od@);
    let mut count: usize = 0;
    let mut w: usize = 0;
    while w < od.len()
        invariant
            0 <= w <= od.len(),
            count == w,
            ovs == task_views(od@),
            m0 == tasks_table(*old(conn)),
            ds@ == crate::dates::date_text(*today),
            listing(m0, ovs, sel_overdue(ds@)),
            notes_state(*conn) == notes_state(*old(conn)),
            checkin_state(*conn) == checkin_state(*old(conn)),
            schema_state(*conn) == schema_state(*old(conn)),
            tags_table(*conn) == tags_table(*old(conn)),
            task_tags_rel(*conn) == task_tags_rel(*old(conn)),
            tasks_table(*conn).dom() == m0.dom(),
            forall|k: Seq<char>| #[trigger] m0.dom().contains(k) && !overdue_on(m0[k], ds@)
                ==> tasks_table(*conn)[k] == m0[k],
            forall|v: int| 0 <= v < w ==> exists|so: int, u: Seq<char>|
                tasks_table(*conn)[(#[trigger] ovs[v]).id] == #[trigger] rolled_view(
                    m0[ovs[v].id], ds@, so, u),
            forall|v: int| w <= v < ovs.len() ==> tasks_table(*conn)[(#[trigger] ovs[v]).id]
                == m0[ovs[v].id],
            forall|v1: int, v2: int|
                #![trigger ovs[v1], ovs[v2]]
                0 <= v1 < v2 < w ==> tasks_table(*conn)[ovs[v1].id].sort_order < tasks_table(
                    *conn,
                )[ovs[v2].id].sort_order,
            forall|v: int, z: Seq<char>|
                #![trigger ovs[v], m0[z]]
                0 <= v < w && m0.dom().contains(z) && in_partition(m0[z], ds@, true)
                    ==> m0[z].sort_order < tasks_table(*conn)[ovs[v].id].sort_order,
        decreases od.len() - w,
    {
        let ghost at_call = tasks_table(*conn);
        let pos = next_sort_order(conn, &ds, true)?;
        let src = od[w].duplicate();
        proof {
            assert(ovs[w as int] == od@[w as int]@);
            assert(m0.contains_pair(ovs[w as int].id, ovs[w as int]));
            assert(src.id@ == src@.id);
            crate::tags::lemma_seq_lt_irrefl(ds@);
            // the fresh position sits above every row already in
            // today's rolled partition: the pre-existing ones (never
            // overdue, hence unchanged) and the ones moved so far
            assert forall|z: Seq<char>| #[trigger] m0.dom().contains(z) && in_partition(
                m0[z],
                ds@,
                true,
            ) implies m0[z].sort_order < pos as int by {
                assert(!overdue_on(m0[z], ds@));
                assert(at_call[z] == m0[z]);
                assert(at_call.dom().contains(z) && in_partition(at_call[z], ds@, true));
            }
            assert forall|v: int| 0 <= v < w implies tasks_table(*conn)[(
                #[trigger] ovs[v]).id].sort_order < pos as int by {
                assert(m0.contains_pair(ovs[v].id, ovs[v]));
                let (so, u) = choose|so: int, u: Seq<char>| at_call[ovs[v].id]
                    == #[trigger] rolled_view(m0[ovs[v].id], ds@, so, u);
                assert(at_call[ovs[v].id].target_date == ds@
                    && at_call[ovs[v].id].rolled_over == true);
                assert(at_call.dom().contains(ovs[v].id) && in_partition(
                    at_call[ovs[v].id],
                    ds@,
                    true,
                ));
            }
        }
        let from_date = src.target_date.clone();
        let mut m = src;
        m.target_date = ds.clone();
        m.rolled_over = true;
        m.rolled_from_date = Some(from_date);
        m.sort_order = pos;
        m.updated_at = now_rfc3339();
        let ghost pre = tasks_table(*conn);
        let t2 = write_back(conn, m)?;
        proof {
            assert(pre.dom().contains(ovs[w as int].id));
            assert(t2@ =~= rolled_view(m0[ovs[w as int].id], ds@, pos as int, t2@.updated_at));
            assert forall|v: int| 0 <= v < w + 1 implies exists|so: int, u: Seq<char>|
                tasks_table(*conn)[(#[trigger] ovs[v]).id] == #[trigger] rolled_view(
                    m0[ovs[v].id], ds@, so, u)
                by {
                if v < w {
                    assert(ovs[v].id != ovs[w as int].id);
                    let (so, u) = choose|so: int, u: Seq<char>| pre[ovs[v].id]
                        == #[trigger] rolled_view(m0[ovs[v].id], ds@, so, u);
                    assert(tasks_table(*conn)[ovs[v].id] == pre[ovs[v].id]);
                } else {
                    assert(tasks_table(*conn)[ovs[w as int].id] == t2@);
                }
            }
            assert forall|k: Seq<char>| #[trigger] m0.dom().contains(k) && !overdue_on(m0[k], ds@)
                implies tasks_table(*conn)[k] == m0[k] by {
                assert(k != ovs[w as int].id);
            }
            assert forall|v: int| w + 1 <= v < ovs.len() implies tasks_table(
                *conn,
            )[(#[trigger] ovs[v]).id] == m0[ovs[v].id] by {
                assert(ovs[v].id != ovs[w as int].id);
            }
            assert forall|v1: int, v2: int|
                #![trigger ovs[v1], ovs[v2]]
                0 <= v1 < v2 < w + 1 implies tasks_table(*conn)[ovs[v1].id].sort_order
                < tasks_table(*conn)[ovs[v2].id].sort_order by {
                if v2 < w {
                    assert(ovs[v1].id != ovs[w as int].id && ovs[v2].id != ovs[w as int].id);
                    assert(tasks_table(*conn)[ovs[v1].id] == pre[ovs[v1].id]);
                    assert(tasks_table(*conn)[ovs[v2].id] == pre[ovs[v2].id]);
                } else {
                    assert(ovs[v1].id != ovs[w as int].id);
                    assert(tasks_table(*conn)[ovs[v1].id] == pre[ovs[v1].id]);
                    assert(tasks_table(*conn)[ovs[v2].id] == t2@);
                }
            }
            assert forall|v: int, z: Seq<char>|
                #![trigger ovs[v], m0[z]]
                0 <= v < w + 1 && m0.dom().contains(z) && in_partition(m0[z], ds@, true)
                    implies m0[z].sort_order < tasks_table(*conn)[ovs[v].id].sort_order by {
                if v < w {
                    assert(ovs[v].id != ovs[w as int].id);
                    assert(tasks_table(*conn)[ovs[v].id] == pre[ovs[v].id]);
                } else {
                    assert(tasks_table(*conn)[ovs[v].id] == t2@);
                }
            }
        }
        count = count + 1;
        w = w + 1;
    }
    proof {
        assert forall|k: Seq<char>| #[trigger] m0.dom().contains(k) && overdue_on(m0[k], ds@)
            implies exists|so: int, u: Seq<char>| tasks_table(*conn)[k]
                == #[trigger] rolled_view(m0[k], ds@, so, u) by {
            let v = choose|v: int| 0 <= v < ovs.len() && (#[trigger] ovs[v]).id == k;
            assert(m0.contains_pair(ovs[v].id, ovs[v]));
        }
        if count == 0 {
            assert forall|k: Seq<char>| #[trigger] m0.dom().contains(k) implies !overdue_on(
                m0[k],
                ds@,
            ) by {
                if overdue_on(m0[k], ds@) {
                    let v = choose|v: int| 0 <= v < ovs.len() && (#[trigger] ovs[v]).id == k;
                    assert(false);
                }
            }
        }
        if forall|k: Seq<char>| #[trigger] m0.dom().contains(k) ==> !overdue_on(m0[k], ds@) {
            if ovs.len() > 0 {
                assert(m0.contains_pair(ovs[0].id, ovs[0]));
                assert(overdue_on(m0[ovs[0].id], ds@));
                assert(false);
            }
        }
        assert forall|k: Seq<char>, z: Seq<char>|
            #![trigger tasks_table(*conn)[k], m0[z]]
            m0.dom().contains(k) && overdue_on(m0[k], ds@) && m0.dom().contains(z)
                && in_partition(m0[z], ds@, true) implies m0[z].sort_order < tasks_table(
            *conn,
        )[k].sort_order by {
            let v = choose|v: int| 0 <= v < ovs.len() && (#[trigger] ovs[v]).id == k;
            assert(m0[z].sort_order < tasks_table(*conn)[ovs[v].id].sort_order);
        }
        assert forall|k1: Seq<char>, k2: Seq<char>|
            #![trigger tasks_table(*conn)[k1], tasks_table(*conn)[k2]]
            m0.dom().contains(k1) && m0.dom().contains(k2) && k1 != k2 && overdue_on(m0[k1], ds@)
                && overdue_on(m0[k2], ds@) implies tasks_table(*conn)[k1].sort_order
            != tasks_table(*conn)[k2].sort_order by {
            let v1 = choose|v: int| 0 <= v < ovs.len() && (#[trigger] ovs[v]).id == k1;
            let v2 = choose|v: int| 0 <= v < ovs.len() && (#[trigger] ovs[v]).id == k2;
            assert(v1 != v2);
            if v1 < v2 {
                assert(tasks_table(*conn)[ovs[v1].id].sort_order < tasks_table(
                    *conn,
                )[ovs[v2].id].sort_order);
            } else {
                assert(tasks_table(*conn)[ovs[v2].id].sort_order < tasks_table(
                    *conn,
                )[ovs[v1].id].sort_order);
            }
        }
        lemma_moved_ids_exist(tasks_table(*old(conn)), ovs, crate::dates::date_text(*today));
        assert(count as int == ovs.len() as int);
        let chosen = choose|ids: Seq<Seq<char>>| #[trigger] moved_ids_ok(
            ids,
            tasks_table(*old(conn)),
            crate::dates::date_text(*today),
            ovs.len() as int,
        );
        assert(moved_ids_ok(
            chosen,
            tasks_table(*old(conn)),
            crate::dates::date_text(*today),
            count as int,
        ));
        assert(rollover_summary(
            tasks_table(*old(conn)),
            tasks_table(*conn),
            crate::dates::date_text(*today),
            count as int,
        ));
    }
    Ok(count)
}

/// A listing of the overdue tasks yields a duplicate-free enumeration
/// of them, whose length therefore counts them.
proof fn lemma_moved_ids_exist(m0: Map<Seq<char>, TaskV>, ovs: Seq<TaskV>, ds: Seq<char>)
    requires
        listing(m0, ovs, sel_overdue(ds)),
    ensures
        exists|ids: Seq<Seq<char>>| #[trigger] moved_ids_ok(ids, m0, ds, ovs.len() as int),
{
    let ids = Seq::new(ovs.len(), |i: int| ovs[i].id);
    assert forall|i: int, j: int|
        #![trigger ids[i], ids[j]]
        0 <= i < ids.len() && 0 <= j < ids.len() && i != j implies ids[i] != ids[j] by {
        if i < j {
            assert(ovs[i].id != ovs[j].id);
        } else {
            assert(ovs[j].id != ovs[i].id);
        }
    }
    assert(ids.no_duplicates());
    assert forall|i: int| 0 <= i < ids.len() implies m0.dom().contains(#[trigger] ids[i])
        && overdue_on(m0[ids[i]], ds) by {
        assert(m0.contains_pair(ovs[i].id, ovs[i]));
        assert(sel_overdue(ds)(ovs[i]));
    }
    assert forall|k: Seq<char>| #[trigger] m0.dom().contains(k) && overdue_on(m0[k], ds)
        implies ids.contains(k) by {
        assert(sel_overdue(ds)(m0[k]));
        let v = choose|v: int| 0 <= v < ovs.len() && (#[trigger] ovs[v]).id == k;
        assert(ids[v] == k);
    }
    assert(moved_ids_ok(ids, m0, ds, ovs.len() as int));
}

/// After a rollover sweep, nothing in the store is overdue for that
/// day: moved tasks now sit on it, and the rest never were overdue.
pub proof fn lemma_rollover_clears_overdue(
    m0: Map<Seq<char>, TaskV>,
    m1: Map<Seq<char>, TaskV>,
    today: Seq<char>,
)
    requires
        rollover_rel(m0, m1, today),
    ensures
        forall|k: Seq<char>| #[trigger] m1.dom().contains(k) ==> !overdue_on(m1[k], today),
{
    assert forall|k: Seq<char>| #[trigger] m1.dom().contains(k) implies !overdue_on(
        m1[k],
        today,
    ) by {
        assert(m0.dom().contains(k));
        if overdue_on(m0[k], today) {
            let (so, u) = choose|so: int, u: Seq<char>| m1[k] == #[trigger] rolled_view(
                m0[k],
                today,
                so,
                u,
            );
            crate::tags::lemma_seq_lt_irrefl(today);
        }
    }
}

/// Running the rollover sweep twice in one day changes nothing the
/// second time: a task already moved to today is not overdue anymore.
pub proof fn lemma_rollover_idempotent(
    m0: Map<Seq<char>, TaskV>,
    m1: Map<Seq<char>, TaskV>,
    m2: Map<Seq<char>, TaskV>,
    today: Seq<char>,
)
    requires
        rollover_rel(m0, m1, today),
        rollover_rel(m1, m2, today),
    ensures
        m2 == m1,
{
    lemma_rollover_clears_overdue(m0, m1, today);
    assert forall|k: Seq<char>| #[trigger] m1.dom().contains(k) implies m2[k] == m1[k] by {
        assert(!overdue_on(m1[k], today));
    }
    assert(m2 =~= m1);
}

/// The daily rollover sweep, on the system clock's current day.
pub fn rollover_tasks(conn: &mut rusqlite::Connection) -> (r: Result<usize, String>)
    ensures
        notes_state(*final(conn)) == notes_state(*old(conn)),
        checkin_state(*final(conn)) == checkin_state(*old(conn)),
        schema_state(*final(conn)) == schema_state(*old(conn)),
        tags_table(*final(conn)) == tags_table(*old(conn)),
        task_tags_rel(*final(conn)) == task_tags_rel(*old(conn)),
        r matches Ok(n) ==> exists|day: crate::dates::Date|
            #[trigger] crate::dates::date_valid(day) && 1 <= day.year <= 9999 && rollover_summary(
            tasks_table(*old(conn)),
            tasks_table(*final(conn)),
            crate::dates::date_text(day),
            n as int,
        ),
{
    let today = crate::store::today_date()?;
    rollover_tasks_on(conn, &today)
}

/// How many days an advancing task still has to cover; zero once it
/// reached the day.
pub open spec fn days_behind(today: crate::dates::Date, d: crate::dates::Date) -> int {
    if crate::dates::date_lt(d, today) {
        crate::dates::day_number(today) - crate::dates::day_number(d)
    } else {
        0
    }
}

/// A task the sweep works on: recurring, with a recognized type.
pub open spec fn sweep_src(t: TaskV) -> bool {
    t.is_recurring && crate::recurrence::known_recurrence_type(t)
}

/// A row the sweep never rewrites: anything but a non-done sweep task
/// whose (valid) date lies strictly behind the day.
pub open spec fn sweep_stable(t: TaskV, day: crate::dates::Date) -> bool {
    !(sweep_src(t) && t.status != "done"@ && crate::dates::date_text_valid(t.target_date)
        && crate::dates::date_lt(crate::dates::date_of_text(t.target_date), day))
}

/// Same occurrence identity: title and recurrence signature, dates
/// aside.
pub open spec fn same_signature(c: TaskV, t: TaskV) -> bool {
    &&& c.title == t.title
    &&& c.is_recurring
    &&& opt_or(c.recurrence_type, ""@) == opt_or(t.recurrence_type, ""@)
    &&& opt_or_int(c.recurrence_interval, 1) == opt_or_int(t.recurrence_interval, 1)
    &&& opt_or(c.recurrence_weekdays, ""@) == opt_or(t.recurrence_weekdays, ""@)
}

/// The dedup guard as the sweep can rely on it across a whole run: an
/// occurrence held by a row the sweep never rewrites.
#[verifier::opaque]
pub open spec fn stable_occurrence_in(
    m: Map<Seq<char>, TaskV>,
    day: crate::dates::Date,
    src: TaskV,
    ds: Seq<char>,
) -> bool {
    exists|k: Seq<char>| #[trigger] m.dom().contains(k) && sweep_stable(m[k], day)
        && matches_occurrence(m[k], src, ds)
}

/// The dates an advancing task steps through: consecutive
/// `next_occurrence_date` hops, every one before the last strictly
/// behind the day, the last at or past it.
pub open spec fn is_hop_chain(t: TaskV, day: crate::dates::Date, chain: Seq<crate::dates::Date>)
    -> bool {
    &&& chain.len() >= 2
    &&& forall|i: int| 0 <= i < chain.len() - 1 ==> crate::recurrence::task_next_ok(
        t,
        chain[i],
        #[trigger] chain[i + 1],
    )
    &&& forall|i: int| 0 <= i < chain.len() - 1 ==> crate::dates::date_lt(
        #[trigger] chain[i],
        day,
    )
    &&& !crate::dates::date_lt(chain.last(), day)
}

/// `dend` is the first date at or past the day in the hop chain from
/// `d0`.
pub open spec fn advanced_date(
    t: TaskV,
    d0: crate::dates::Date,
    day: crate::dates::Date,
    dend: crate::dates::Date,
) -> bool {
    exists|chain: Seq<crate::dates::Date>| #[trigger] is_hop_chain(t, day, chain) && chain[0]
        == d0 && chain.last() == dend
}

/// A row after an in-place advance: new date, position and stamp, the
/// tag list rewritten, everything else kept.
pub open spec fn advanced_view(prev: TaskV, ds: Seq<char>, so: int, u: Seq<char>) -> TaskV {
    TaskV { target_date: ds, sort_order: so, updated_at: u, tags: rewrite_tags(prev.tags), ..prev }
}

/// What the sweep did to one pre-existing row: left it alone when it is
/// stable, otherwise advanced it in place along its hop chain (or left
/// it alone when the chain leaves the four-digit calendar).
#[verifier::opaque]
pub open spec fn sweep_effect(
    m0: Map<Seq<char>, TaskV>,
    m1: Map<Seq<char>, TaskV>,
    k: Seq<char>,
    day: crate::dates::Date,
) -> bool {
    &&& (sweep_stable(m0[k], day) ==> m1[k] == m0[k])
    &&& (!sweep_stable(m0[k], day) ==> exists|dend: crate::dates::Date, so: int, u: Seq<char>|
        advanced_date(m0[k], crate::dates::date_of_text(m0[k].target_date), day, dend) && (
        dend.year <= 9999 ==> m1[k] == #[trigger] advanced_view(
            m0[k],
            crate::dates::date_text(dend),
            so,
            u,
        )) && (dend.year > 9999 ==> m1[k] == m0[k]))
}

/// Some row of the table carries the occurrence: same signature, dated
/// at the next date or already advanced to the day or past it.
pub open spec fn carries_occurrence(
    m1: Map<Seq<char>, TaskV>,
    src: TaskV,
    nd: crate::dates::Date,
    day: crate::dates::Date,
) -> bool {
    exists|k2: Seq<char>| #[trigger] m1.dom().contains(k2) && same_signature(m1[k2], src) && (
    m1[k2].target_date == crate::dates::date_text(nd) || (crate::dates::date_text_valid(
        m1[k2].target_date,
    ) && !crate::dates::date_lt(crate::dates::date_of_text(m1[k2].target_date), day)))
}

/// After the sweep, some row carries the done task's next occurrence:
/// either still dated there, or itself already advanced to the day or
/// past it.
pub open spec fn gen_effect(
    m0: Map<Seq<char>, TaskV>,
    m1: Map<Seq<char>, TaskV>,
    k: Seq<char>,
    day: crate::dates::Date,
) -> bool {
    exists|nd: crate::dates::Date| #[trigger] crate::recurrence::task_next_ok(
        m0[k],
        crate::dates::date_of_text(m0[k].target_date),
        nd,
    ) && (nd.year <= 9999 ==> carries_occurrence(m1, m0[k], nd, day))
}

/// A row the sweep inserted: a fresh occurrence of some done task on
/// its next date, inserted only because no stable row already carried
/// that occurrence.
#[verifier::opaque]
pub open spec fn inserted_occurrence(
    m0: Map<Seq<char>, TaskV>,
    m1: Map<Seq<char>, TaskV>,
    k: Seq<char>,
    day: crate::dates::Date,
) -> bool {
    exists|sk: Seq<char>, nd: crate::dates::Date|
        #![trigger m0[sk], crate::dates::date_text(nd)]
        m0.dom().contains(sk) && sweep_src(m0[sk]) && m0[sk].status == "done"@
            && crate::recurrence::task_next_ok(
            m0[sk],
            crate::dates::date_of_text(m0[sk].target_date),
            nd,
        ) && nd.year <= 9999 && m1[k].target_date == crate::dates::date_text(nd)
            && same_signature(m1[k], m0[sk]) && !stable_occurrence_in(
            m0,
            day,
            m0[sk],
            crate::dates::date_text(nd),
        )
}

/// Everything a successful recurrence sweep guarantees.
pub open spec fn recurrence_sweep_ok(
    m0: Map<Seq<char>, TaskV>,
    m1: Map<Seq<char>, TaskV>,
    day: crate::dates::Date,
) -> bool {
    &&& forall|k: Seq<char>| #[trigger] m0.dom().contains(k) ==> m1.dom().contains(k)
    &&& forall|k: Seq<char>| #[trigger] m0.dom().contains(k) && sweep_src(m0[k])
        ==> crate::dates::date_text_valid(m0[k].target_date)
    &&& forall|k: Seq<char>| #[trigger] m0.dom().contains(k) ==> sweep_effect(m0, m1, k, day)
    &&& forall|k: Seq<char>| #[trigger] m1.dom().contains(k) && !m0.dom().contains(k)
        ==> occurrence_shape(m1[k]) && inserted_occurrence(m0, m1, k, day)
    &&& forall|k: Seq<char>| #[trigger] m0.dom().contains(k) && sweep_src(m0[k])
        && m0[k].status == "done"@ ==> gen_effect(m0, m1, k, day)
}

/// A sweep over a store whose done recurring tasks all have a stable
/// occurrence at their next date inserts nothing: the dedup guard
/// blocks every generation, so a repeated sweep never duplicates.
pub proof fn lemma_sweep_inserts_nothing(
    m0: Map<Seq<char>, TaskV>,
    m1: Map<Seq<char>, TaskV>,
    day: crate::dates::Date,
)
    requires
        recurrence_sweep_ok(m0, m1, day),
        forall|k: Seq<char>, nd: crate::dates::Date|
            #![trigger m0[k], crate::dates::date_text(nd)]
            m0.dom().contains(k) && sweep_src(m0[k]) && m0[k].status == "done"@
                && crate::recurrence::task_next_ok(
                m0[k],
                crate::dates::date_of_text(m0[k].target_date),
                nd,
            ) && nd.year <= 9999 ==> stable_occurrence_in(
                m0,
                day,
                m0[k],
                crate::dates::date_text(nd),
            ),
    ensures
        m1.dom() == m0.dom(),
{
    reveal(inserted_occurrence);
    assert forall|k: Seq<char>| #[trigger] m1.dom().contains(k) implies m0.dom().contains(k) by {
        if !m0.dom().contains(k) {
            let (sk, nd) = choose|sk: Seq<char>, nd: crate::dates::Date|
                #![trigger m0[sk], crate::dates::date_text(nd)]
                m0.dom().contains(sk) && sweep_src(m0[sk]) && m0[sk].status == "done"@
                    && crate::recurrence::task_next_ok(
                    m0[sk],
                    crate::dates::date_of_text(m0[sk].target_date),
                    nd,
                ) && nd.year <= 9999 && m1[k].target_date == crate::dates::date_text(nd)
                    && same_signature(m1[k], m0[sk]) && !stable_occurrence_in(
                    m0,
                    day,
                    m0[sk],
                    crate::dates::date_text(nd),
                );
            assert(stable_occurrence_in(m0, day, m0[sk], crate::dates::date_text(nd)));
        }
    }
    assert(m1.dom() =~= m0.dom());
}

/// A row effect survives any later step that leaves the row itself
/// untouched.
proof fn lemma_sweep_effect_preserved(
    m0: Map<Seq<char>, TaskV>,
    pre: Map<Seq<char>, TaskV>,
    post: Map<Seq<char>, TaskV>,
    k: Seq<char>,
    day: crate::dates::Date,
)
    requires
        sweep_effect(m0, pre, k, day),
        post[k] == pre[k],
    ensures
        sweep_effect(m0, post, k, day),
{
    reveal(sweep_effect);
    if !sweep_stable(m0[k], day) {
        let (dend, so, u) = choose|dend: crate::dates::Date, so: int, u: Seq<char>|
            advanced_date(m0[k], crate::dates::date_of_text(m0[k].target_date), day, dend) && (
            dend.year <= 9999 ==> pre[k] == #[trigger] advanced_view(
                m0[k],
                crate::dates::date_text(dend),
                so,
                u,
            )) && (dend.year > 9999 ==> pre[k] == m0[k]);
        assert(advanced_date(m0[k], crate::dates::date_of_text(m0[k].target_date), day, dend)
            && (dend.year <= 9999 ==> post[k] == advanced_view(
                m0[k],
                crate::dates::date_text(dend),
                so,
                u,
            )) && (dend.year > 9999 ==> post[k] == m0[k]));
    }
}

/// A generation effect survives a later step that only inserts a fresh
/// row or advances one row, since the advanced form keeps its
/// signature and sits at or past the day.
#[verifier::rlimit(100)]
proof fn lemma_gen_effect_preserved(
    m0: Map<Seq<char>, TaskV>,
    pre: Map<Seq<char>, TaskV>,
    post: Map<Seq<char>, TaskV>,
    k: Seq<char>,
    day: crate::dates::Date,
    a: Seq<char>,
)
    requires
        gen_effect(m0, pre, k, day),
        forall|z: Seq<char>| #[trigger] pre.dom().contains(z) ==> post.dom().contains(z),
        forall|z: Seq<char>| #[trigger] pre.dom().contains(z) && z != a ==> post[z] == pre[z],
        pre.dom().contains(a) ==> post[a] == pre[a] || (post[a].title == pre[a].title
            && post[a].is_recurring == pre[a].is_recurring && post[a].recurrence_type
            == pre[a].recurrence_type && post[a].recurrence_interval
            == pre[a].recurrence_interval && post[a].recurrence_weekdays
            == pre[a].recurrence_weekdays && crate::dates::date_text_valid(post[a].target_date)
            && !crate::dates::date_lt(crate::dates::date_of_text(post[a].target_date), day)),
    ensures
        gen_effect(m0, post, k, day),
{
    let nd = choose|nd: crate::dates::Date| #[trigger] crate::recurrence::task_next_ok(
        m0[k],
        crate::dates::date_of_text(m0[k].target_date),
        nd,
    ) && (nd.year <= 9999 ==> carries_occurrence(pre, m0[k], nd, day));
    if nd.year <= 9999 {
        let k2 = choose|k2: Seq<char>| #[trigger] pre.dom().contains(k2) && same_signature(
            pre[k2],
            m0[k],
        ) && (pre[k2].target_date == crate::dates::date_text(nd) || (
        crate::dates::date_text_valid(pre[k2].target_date) && !crate::dates::date_lt(
            crate::dates::date_of_text(pre[k2].target_date),
            day,
        )));
        if k2 == a && post[a] != pre[a] {
            assert(pre.dom().contains(a));
            assert(same_signature(pre[a], m0[k]));
            assert(post[a].title == pre[a].title);
            assert(post[a].is_recurring == pre[a].is_recurring);
            assert(opt_or(post[a].recurrence_type, ""@) == opt_or(pre[a].recurrence_type, ""@));
            assert(opt_or_int(post[a].recurrence_interval, 1) == opt_or_int(
                pre[a].recurrence_interval,
                1,
            ));
            assert(opt_or(post[a].recurrence_weekdays, ""@) == opt_or(
                pre[a].recurrence_weekdays,
                ""@,
            ));
            assert(same_signature(post[k2], m0[k]));
            assert(post.dom().contains(k2) && same_signature(post[k2], m0[k])
                && crate::dates::date_text_valid(post[k2].target_date)
                && !crate::dates::date_lt(
                crate::dates::date_of_text(post[k2].target_date),
                day,
            ));
            assert(carries_occurrence(post, m0[k], nd, day));
        } else {
            assert(post[k2] == pre[k2]);
            assert(post.dom().contains(k2));
            assert(carries_occurrence(post, m0[k], nd, day));
        }
    }
    assert(crate::recurrence::task_next_ok(
        m0[k],
        crate::dates::date_of_text(m0[k].target_date),
        nd,
    ) && (nd.year <= 9999 ==> carries_occurrence(post, m0[k], nd, day)));
}

/// A freshly generated occurrence row, as the sweep's contract sees it.
pub open spec fn occurrence_shape(t: TaskV) -> bool {
    t.status == "todo"@ && t.progress_percent == 0 && !t.rolled_over && t.is_recurring
}

/// One generation step of the sweep, for a done recurring task: leaves
/// every present row untouched and inserts its next occurrence exactly
/// when no row carries one.
#[verifier::rlimit(100)]
fn sweep_step_done(
    conn: &mut rusqlite::Connection,
    row: &Task,
    today: &crate::dates::Date,
    Ghost(m0): Ghost<Map<Seq<char>, TaskV>>,
) -> (r: Result<(), String>)
    requires
        crate::dates::date_valid(*today),
        today.year <= 9999,
        m0.contains_pair(row.id@, row@),
        sweep_src(row@),
        row@.status == "done"@,
        forall|z: Seq<char>| #[trigger] m0.dom().contains(z) ==> tasks_table(
            *old(conn),
        ).dom().contains(z),
        forall|z: Seq<char>| #[trigger] m0.dom().contains(z) && sweep_stable(m0[z], *today)
            ==> tasks_table(*old(conn))[z] == m0[z],
    ensures
        notes_state(*final(conn)) == notes_state(*old(conn)),
        checkin_state(*final(conn)) == checkin_state(*old(conn)),
        schema_state(*final(conn)) == schema_state(*old(conn)),
        r is Ok ==> forall|z: Seq<char>| #[trigger] tasks_table(*old(conn)).dom().contains(z)
            ==> tasks_table(*final(conn)).dom().contains(z) && tasks_table(*final(conn))[z]
                == tasks_table(*old(conn))[z],
        r is Ok ==> crate::dates::date_text_valid(row@.target_date),
        r is Ok ==> gen_effect(m0, tasks_table(*final(conn)), row.id@, *today),
        r is Ok ==> forall|k: Seq<char>| #[trigger] tasks_table(*final(conn)).dom().contains(k)
            && !tasks_table(*old(conn)).dom().contains(k) ==> occurrence_shape(
            tasks_table(*final(conn))[k],
        ) && inserted_occurrence(m0, tasks_table(*final(conn)), k, *today),
{
    let ghost day = *today;
    let ghost kk = row.id@;
    proof {
        crate::dates::lemma_day_number_year_bound(*today);
        crate::dates::lemma_leap_years_nonneg(today.year as int);
    }
    let base = crate::dates::parse_date(row.target_date.as_str())?;
    proof {
        crate::dates::lemma_day_number_year_bound(base);
        crate::dates::lemma_leap_years_nonneg(base.year as int);
    }
    let next = crate::recurrence::next_occurrence_date(row, base);
    if next.year > 9999 {
        proof {
            assert(crate::recurrence::task_next_ok(
                m0[kk],
                crate::dates::date_of_text(m0[kk].target_date),
                next,
            ));
            assert(gen_effect(m0, tasks_table(*conn), kk, day));
        }
        return Ok(());
    }
    let ns = crate::dates::format_date(&next);
    if has_recurring_occurrence(conn, row, &ns)? {
        proof {
            let z = choose|z: Seq<char>| #[trigger] tasks_table(*conn).dom().contains(z)
                && matches_occurrence(tasks_table(*conn)[z], row@, ns@);
            assert(row@ == m0[kk]);
            assert(same_signature(tasks_table(*conn)[z], row@));
            assert(crate::recurrence::task_next_ok(
                m0[kk],
                crate::dates::date_of_text(m0[kk].target_date),
                next,
            ));
            assert(tasks_table(*conn).dom().contains(z) && same_signature(
                tasks_table(*conn)[z],
                m0[kk],
            ) && tasks_table(*conn)[z].target_date == crate::dates::date_text(next));
            assert(carries_occurrence(tasks_table(*conn), m0[kk], next, day));
            assert(gen_effect(m0, tasks_table(*conn), kk, day));
        }
        return Ok(());
    }
    let ghost pre = tasks_table(*conn);
    insert_next_occurrence(conn, row, &ns)?;
    proof {
        reveal(inserted_occurrence);
        reveal(stable_occurrence_in);
        let (nk, so, u) = choose|nk: Seq<char>, so: int, u: Seq<char>| !pre.dom().contains(nk)
            && next_order_ok(pre, ns@, false, so) && tasks_table(*conn) == pre.insert(
            nk,
            #[trigger] occurrence_view(row@, nk, ns@, so, u),
        );
        assert(occurrence_shape(tasks_table(*conn)[nk]));
        // the guard failed on the current table, where every stable row
        // still holds its first value, so no stable occurrence existed
        // at the start either
        assert(!stable_occurrence_in(m0, day, m0[kk], ns@)) by {
            if stable_occurrence_in(m0, day, m0[kk], ns@) {
                let z = choose|z: Seq<char>| #[trigger] m0.dom().contains(z) && sweep_stable(
                    m0[z],
                    day,
                ) && matches_occurrence(m0[z], m0[kk], ns@);
                assert(pre[z] == m0[z]);
                assert(pre.dom().contains(z) && matches_occurrence(pre[z], row@, ns@));
                assert(occurrence_exists(pre, row@, ns@));
                assert(false);
            }
        }
        assert(inserted_occurrence(m0, tasks_table(*conn), nk, day)) by {
            assert(m0.dom().contains(kk) && sweep_src(m0[kk]) && m0[kk].status == "done"@
                && crate::recurrence::task_next_ok(
                m0[kk],
                crate::dates::date_of_text(m0[kk].target_date),
                next,
            ) && next.year <= 9999 && tasks_table(*conn)[nk].target_date
                == crate::dates::date_text(next) && same_signature(
                tasks_table(*conn)[nk],
                m0[kk],
            ));
        }
        assert(tasks_table(*conn).dom().contains(nk) && same_signature(
            tasks_table(*conn)[nk],
            m0[kk],
        ) && tasks_table(*conn)[nk].target_date == crate::dates::date_text(next));
        assert(crate::recurrence::task_next_ok(
            m0[kk],
            crate::dates::date_of_text(m0[kk].target_date),
            next,
        ));
        assert(carries_occurrence(tasks_table(*conn), m0[kk], next, day));
        assert(gen_effect(m0, tasks_table(*conn), kk, day));
        assert forall|k: Seq<char>| #[trigger] tasks_table(*conn).dom().contains(k)
            && !pre.dom().contains(k) implies occurrence_shape(tasks_table(*conn)[k])
            && inserted_occurrence(m0, tasks_table(*conn), k, day) by {
            assert(k == nk);
        }
    }
    Ok(())
}

/// One advance step of the sweep, for a non-done recurring task: when
/// its date fell behind, it moves in place along its hop chain to the
/// first chain date at or past the day; the advanced row keeps its
/// signature.
#[verifier::rlimit(100)]
fn sweep_step_advance(
    conn: &mut rusqlite::Connection,
    row: &Task,
    today: &crate::dates::Date,
    Ghost(m0): Ghost<Map<Seq<char>, TaskV>>,
) -> (r: Result<(), String>)
    requires
        crate::dates::date_valid(*today),
        today.year <= 9999,
        m0.contains_pair(row.id@, row@),
        sweep_src(row@),
        row@.status != "done"@,
        tasks_table(*old(conn)).dom().contains(row.id@),
        tasks_table(*old(conn))[row.id@] == m0[row.id@],
    ensures
        notes_state(*final(conn)) == notes_state(*old(conn)),
        checkin_state(*final(conn)) == checkin_state(*old(conn)),
        schema_state(*final(conn)) == schema_state(*old(conn)),
        r is Ok ==> forall|z: Seq<char>| tasks_table(*final(conn)).dom().contains(z)
            <==> #[trigger] tasks_table(*old(conn)).dom().contains(z),
        r is Ok ==> forall|z: Seq<char>| #[trigger] tasks_table(*old(conn)).dom().contains(z)
            && z != row.id@ ==> tasks_table(*final(conn))[z] == tasks_table(*old(conn))[z],
        r is Ok ==> crate::dates::date_text_valid(row@.target_date),
        r is Ok ==> sweep_effect(m0, tasks_table(*final(conn)), row.id@, *today),
        r is Ok ==> tasks_table(*final(conn))[row.id@] == tasks_table(*old(conn))[row.id@] || (
            tasks_table(*final(conn))[row.id@].title == m0[row.id@].title && tasks_table(
            *final(conn),
        )[row.id@].is_recurring == m0[row.id@].is_recurring && tasks_table(
            *final(conn),
        )[row.id@].recurrence_type == m0[row.id@].recurrence_type && tasks_table(
            *final(conn),
        )[row.id@].recurrence_interval == m0[row.id@].recurrence_interval && tasks_table(
            *final(conn),
        )[row.id@].recurrence_weekdays == m0[row.id@].recurrence_weekdays
            && crate::dates::date_text_valid(tasks_table(*final(conn))[row.id@].target_date)
            && !crate::dates::date_lt(
            crate::dates::date_of_text(tasks_table(*final(conn))[row.id@].target_date),
            *today,
        )),
{
    let ghost day = *today;
    let ghost kk = row.id@;
    proof {
        crate::dates::lemma_day_number_year_bound(*today);
        crate::dates::lemma_leap_years_nonneg(today.year as int);
    }
    let base = crate::dates::parse_date(row.target_date.as_str())?;
    proof {
        crate::dates::lemma_day_number_year_bound(base);
        crate::dates::lemma_leap_years_nonneg(base.year as int);
        crate::dates::lemma_date_text_round_trip(base);
    }
    if !crate::dates::date_before(&base, today) {
        proof {
            reveal(sweep_effect);
            assert(sweep_stable(m0[kk], day));
        }
        return Ok(());
    }
    let mut d = base;
    let ghost mut chain: Seq<crate::dates::Date> = seq![base];
    while crate::dates::date_before(&d, today)
        invariant
            row@ == m0[kk],
            crate::recurrence::known_recurrence_type(row@),
            crate::dates::date_valid(d),
            crate::dates::date_valid(*today),
            crate::dates::day_number(*today) <= crate::recurrence::TASK_DAY_LIMIT,
            chain.len() >= 1,
            chain[0] == base,
            chain.last() == d,
            forall|i: int| 0 <= i < chain.len() - 1 ==> crate::recurrence::task_next_ok(
                row@,
                chain[i],
                #[trigger] chain[i + 1],
            ),
            forall|i: int| 0 <= i < chain.len() - 1 ==> crate::dates::date_lt(
                #[trigger] chain[i],
                *today,
            ),
        decreases days_behind(*today, d),
    {
        d = crate::recurrence::next_occurrence_date(row, d);
        proof {
            let ghost prev = chain;
            chain = chain.push(d);
            assert forall|i: int| 0 <= i < chain.len() - 1 implies
                crate::recurrence::task_next_ok(row@, chain[i], #[trigger] chain[i + 1]) by {
                if i < prev.len() - 1 {
                    assert(chain[i] == prev[i] && chain[i + 1] == prev[i + 1]);
                } else {
                    assert(chain[i] == prev.last() && chain[i + 1] == d);
                }
            }
            assert forall|i: int| 0 <= i < chain.len() - 1 implies crate::dates::date_lt(
                #[trigger] chain[i],
                *today,
            ) by {
                if i < prev.len() - 1 {
                    assert(chain[i] == prev[i]);
                } else {
                    assert(chain[i] == prev.last());
                }
            }
        }
    }
    proof {
        assert(chain.len() >= 2);
        assert(is_hop_chain(row@, day, chain));
        assert(advanced_date(m0[kk], crate::dates::date_of_text(m0[kk].target_date), day, d));
    }
    if d.year > 9999 {
        proof {
            reveal(sweep_effect);
            assert(!sweep_stable(m0[kk], day));
            assert(tasks_table(*conn)[kk] == m0[kk]);
        }
        return Ok(());
    }
    let ds2 = crate::dates::format_date(&d);
    let pos = next_sort_order(conn, &ds2, row.rolled_over)?;
    let mut mm = row.duplicate();
    mm.target_date = ds2;
    mm.sort_order = pos;
    mm.updated_at = now_rfc3339();
    let t2 = write_back(conn, mm)?;
    proof {
        reveal(sweep_effect);
        crate::dates::lemma_date_text_round_trip(d);
        assert(t2@ =~= advanced_view(m0[kk], crate::dates::date_text(d), pos as int,
            t2@.updated_at));
        assert(sweep_effect(m0, tasks_table(*conn), kk, day)) by {
            assert(!sweep_stable(m0[kk], day));
            assert(tasks_table(*conn)[kk] == t2@);
        }
    }
    Ok(())
}

/// The recurrence sweep for a given day: a done recurring task whose
/// next occurrence is missing among the rows the sweep leaves in place
/// gets exactly one generated, and a non-done recurring task whose date
/// fell behind is advanced in place along its hop chain until it
/// reaches or passes the day. Tasks without a recognized recurrence
/// type are left alone.
#[verifier::rlimit(100)]
pub fn ensure_recurrences_on(conn: &mut rusqlite::Connection, today: &crate::dates::Date) -> (r:
    Result<(), String>)
    requires
        crate::dates::date_valid(*today),
        today.year <= 9999,
    ensures
        notes_state(*final(conn)) == notes_state(*old(conn)),
        checkin_state(*final(conn)) == checkin_state(*old(conn)),
        schema_state(*final(conn)) == schema_state(*old(conn)),
        r is Ok ==> recurrence_sweep_ok(
            tasks_table(*old(conn)),
            tasks_table(*final(conn)),
            *today,
        ),
{
    let rows = select_all_tasks(conn)?;
    let ghost m0 = tasks_table(*conn);
    let rec = filter_recurring(&rows);
    proof {
        lemma_select_views(m0, rows@);
        lemma_listing_from_filter(m0, task_views(rows@), sel_recurring());
    }
    let ghost rvs = task_views(rec@);
    let ghost day = *today;
    let mut w: usize = 0;
    while w < rec.len()
        invariant
            0 <= w <= rec.len(),
            rvs == task_views(rec@),
            m0 == tasks_table(*old(conn)),
            day == *today,
            crate::dates::date_valid(day),
            day.year <= 9999,
            listing(m0, rvs, sel_recurring()),
            notes_state(*conn) == notes_state(*old(conn)),
            checkin_state(*conn) == checkin_state(*old(conn)),
            schema_state(*conn) == schema_state(*old(conn)),
            forall|k: Seq<char>| #[trigger] m0.dom().contains(k) ==> tasks_table(
                *conn,
            ).dom().contains(k),
            forall|k: Seq<char>| #[trigger] m0.dom().contains(k) && !m0[k].is_recurring
                ==> tasks_table(*conn)[k] == m0[k],
            forall|v: int| w <= v < rvs.len() ==> tasks_table(*conn)[(#[trigger] rvs[v]).id]
                == m0[rvs[v].id],
            forall|v: int| 0 <= v < w && sweep_src(#[trigger] rvs[v])
                ==> crate::dates::date_text_valid(rvs[v].target_date),
            forall|v: int| 0 <= v < w ==> sweep_effect(m0, tasks_table(*conn),
                (#[trigger] rvs[v]).id, day),
            forall|v: int| 0 <= v < w && sweep_src(#[trigger] rvs[v]) && rvs[v].status
                == "done"@ ==> gen_effect(m0, tasks_table(*conn), rvs[v].id, day),
            forall|k: Seq<char>| #[trigger] tasks_table(*conn).dom().contains(k)
                && !m0.dom().contains(k) ==> occurrence_shape(tasks_table(*conn)[k])
                    && inserted_occurrence(m0, tasks_table(*conn), k, day),
        decreases rec.len() - w,
    {
        let ghost pre = tasks_table(*conn);
        let ghost kk = rvs[w as int].id;
        proof {
            assert(rvs[w as int] == rec@[w as int]@);
            assert(m0.contains_pair(kk, rvs[w as int]));
            reveal_strlit("daily");
            reveal_strlit("weekly");
            reveal_strlit("monthly");
            reveal_strlit("");
            reveal_strlit("done");
            assert("daily"@.len() == 5 && "weekly"@.len() == 6 && "monthly"@.len() == 7
                && ""@.len() == 0 && "done"@.len() == 4);
        }
        let rtype = match &rec[w].recurrence_type {
            Some(s) => s.as_str(),
            None => "",
        };
        let known = str_eq(rtype, "daily") || str_eq(rtype, "weekly") || str_eq(rtype, "monthly");
        if !known {
            proof {
                reveal(sweep_effect);
                assert(!crate::recurrence::known_recurrence_type(rvs[w as int]));
                assert(sweep_stable(m0[kk], day));
                assert(sweep_effect(m0, tasks_table(*conn), kk, day));
            }
        } else if str_eq(rec[w].status.as_str(), "done") {
            proof {
                assert(sweep_src(rvs[w as int]));
                assert forall|z: Seq<char>| #[trigger] m0.dom().contains(z) && sweep_stable(
                    m0[z],
                    day,
                ) implies tasks_table(*conn)[z] == m0[z] by {
                    reveal(sweep_effect);
                    if m0[z].is_recurring {
                        let v = choose|v: int| 0 <= v < rvs.len() && (#[trigger] rvs[v]).id
                            == z;
                        assert(m0.contains_pair(rvs[v].id, rvs[v]));
                        if v < w {
                            assert(sweep_effect(m0, tasks_table(*conn), z, day));
                        }
                    }
                }
            }
            sweep_step_done(conn, &rec[w], today, Ghost(m0))?;
            proof {
                reveal(sweep_effect);
                assert(sweep_stable(m0[kk], day));
                assert(tasks_table(*conn)[kk] == pre[kk]);
                assert(sweep_effect(m0, tasks_table(*conn), kk, day));
                assert forall|v: int| 0 <= v < w implies sweep_effect(m0, tasks_table(*conn),
                    (#[trigger] rvs[v]).id, day) by {
                    assert(m0.contains_pair(rvs[v].id, rvs[v]));
                    assert(tasks_table(*conn)[rvs[v].id] == pre[rvs[v].id]);
                    lemma_sweep_effect_preserved(m0, pre, tasks_table(*conn), rvs[v].id, day);
                }
                assert forall|v: int| 0 <= v < w && sweep_src(#[trigger] rvs[v])
                    && rvs[v].status == "done"@ implies gen_effect(m0, tasks_table(*conn),
                    rvs[v].id, day) by {
                    lemma_gen_effect_preserved(m0, pre, tasks_table(*conn), rvs[v].id, day,
                        kk);
                }
                assert forall|k: Seq<char>| #[trigger] tasks_table(*conn).dom().contains(k)
                    && !m0.dom().contains(k) implies occurrence_shape(tasks_table(*conn)[k])
                    && inserted_occurrence(m0, tasks_table(*conn), k, day) by {
                    if pre.dom().contains(k) {
                        assert(tasks_table(*conn)[k] == pre[k]);
                        lemma_inserted_preserved(m0, pre, tasks_table(*conn), k, day);
                    }
                }
                assert forall|v: int| w + 1 <= v < rvs.len() implies tasks_table(*conn)[(
                    #[trigger] rvs[v]).id] == m0[rvs[v].id] by {
                    assert(m0.contains_pair(rvs[v].id, rvs[v]));
                    assert(tasks_table(*conn)[rvs[v].id] == pre[rvs[v].id]);
                }
            }
        } else {
            proof {
                assert(sweep_src(rvs[w as int]));
            }
            sweep_step_advance(conn, &rec[w], today, Ghost(m0))?;
            proof {
                assert forall|v: int| 0 <= v < w implies sweep_effect(m0, tasks_table(*conn),
                    (#[trigger] rvs[v]).id, day) by {
                    assert(m0.contains_pair(rvs[v].id, rvs[v]));
                    assert(rvs[v].id != kk);
                    assert(tasks_table(*conn)[rvs[v].id] == pre[rvs[v].id]);
                    lemma_sweep_effect_preserved(m0, pre, tasks_table(*conn), rvs[v].id, day);
                }
                assert forall|v: int| 0 <= v < w && sweep_src(#[trigger] rvs[v])
                    && rvs[v].status == "done"@ implies gen_effect(m0, tasks_table(*conn),
                    rvs[v].id, day) by {
                    assert(pre.dom().contains(kk) ==> tasks_table(*conn)[kk] == pre[kk] || (
                        tasks_table(*conn)[kk].title == pre[kk].title && tasks_table(
                        *conn,
                    )[kk].is_recurring == pre[kk].is_recurring && tasks_table(
                        *conn,
                    )[kk].recurrence_type == pre[kk].recurrence_type && tasks_table(
                        *conn,
                    )[kk].recurrence_interval == pre[kk].recurrence_interval && tasks_table(
                        *conn,
                    )[kk].recurrence_weekdays == pre[kk].recurrence_weekdays
                        && crate::dates::date_text_valid(tasks_table(*conn)[kk].target_date)
                        && !crate::dates::date_lt(
                        crate::dates::date_of_text(tasks_table(*conn)[kk].target_date),
                        day,
                    )));
                    lemma_gen_effect_preserved(m0, pre, tasks_table(*conn), rvs[v].id, day,
                        kk);
                }
                assert forall|k: Seq<char>| #[trigger] tasks_table(*conn).dom().contains(k)
                    && !m0.dom().contains(k) implies occurrence_shape(tasks_table(*conn)[k])
                    && inserted_occurrence(m0, tasks_table(*conn), k, day) by {
                    assert(pre.dom().contains(k));
                    assert(k != kk);
                    assert(tasks_table(*conn)[k] == pre[k]);
                    lemma_inserted_preserved(m0, pre, tasks_table(*conn), k, day);
                }
                assert forall|v: int| w + 1 <= v < rvs.len() implies tasks_table(*conn)[(
                    #[trigger] rvs[v]).id] == m0[rvs[v].id] by {
                    assert(m0.contains_pair(rvs[v].id, rvs[v]));
                    assert(rvs[v].id != kk);
                    assert(tasks_table(*conn)[rvs[v].id] == pre[rvs[v].id]);
                }
            }
        }
        w = w + 1;
    }
    proof {
        assert forall|k: Seq<char>| #[trigger] m0.dom().contains(k) && sweep_src(m0[k])
            implies crate::dates::date_text_valid(m0[k].target_date) by {
            let v = choose|v: int| 0 <= v < rvs.len() && (#[trigger] rvs[v]).id == k;
            assert(m0.contains_pair(rvs[v].id, rvs[v]));
        }
        assert forall|k: Seq<char>| #[trigger] m0.dom().contains(k) implies sweep_effect(
            m0,
            tasks_table(*conn),
            k,
            day,
        ) by {
            if m0[k].is_recurring {
                let v = choose|v: int| 0 <= v < rvs.len() && (#[trigger] rvs[v]).id == k;
                assert(m0.contains_pair(rvs[v].id, rvs[v]));
            } else {
                reveal(sweep_effect);
                assert(sweep_stable(m0[k], day));
            }
        }
        assert forall|k: Seq<char>| #[trigger] m0.dom().contains(k) && sweep_src(m0[k])
            && m0[k].status == "done"@ implies gen_effect(m0, tasks_table(*conn), k, day) by {
            let v = choose|v: int| 0 <= v < rvs.len() && (#[trigger] rvs[v]).id == k;
            assert(m0.contains_pair(rvs[v].id, rvs[v]));
        }
        assert(recurrence_sweep_ok(tasks_table(*old(conn)), tasks_table(*conn), *today));
    }
    Ok(())
}

/// An inserted occurrence's clause survives later steps that leave the
/// row untouched.
proof fn lemma_inserted_preserved(
    m0: Map<Seq<char>, TaskV>,
    pre: Map<Seq<char>, TaskV>,
    post: Map<Seq<char>, TaskV>,
    k: Seq<char>,
    day: crate::dates::Date,
)
    requires
        inserted_occurrence(m0, pre, k, day),
        post[k] == pre[k],
    ensures
        inserted_occurrence(m0, post, k, day),
{
    reveal(inserted_occurrence);
    let (sk, nd) = choose|sk: Seq<char>, nd: crate::dates::Date|
        #![trigger m0[sk], crate::dates::date_text(nd)]
        m0.dom().contains(sk) && sweep_src(m0[sk]) && m0[sk].status == "done"@
            && crate::recurrence::task_next_ok(
            m0[sk],
            crate::dates::date_of_text(m0[sk].target_date),
            nd,
        ) && nd.year <= 9999 && pre[k].target_date == crate::dates::date_text(nd)
            && same_signature(pre[k], m0[sk]) && !stable_occurrence_in(
            m0,
            day,
            m0[sk],
            crate::dates::date_text(nd),
        );
    assert(post[k].target_date == crate::dates::date_text(nd) && same_signature(
        post[k],
        m0[sk],
    ));
}

/// The recurrence sweep, on the system clock's current day.
pub fn ensure_recurrences(conn: &mut rusqlite::Connection) -> (r: Result<(), String>)
    ensures
        notes_state(*final(conn)) == notes_state(*old(conn)),
        checkin_state(*final(conn)) == checkin_state(*old(conn)),
        schema_state(*final(conn)) == schema_state(*old(conn)),
        r is Ok ==> exists|day: crate::dates::Date|
            #[trigger] crate::dates::date_valid(day) && 1 <= day.year <= 9999
                && recurrence_sweep_ok(
                tasks_table(*old(conn)),
                tasks_table(*final(conn)),
                day,
            ),
{
    let today = crate::store::today_date()?;
    ensure_recurrences_on(conn, &today)
}

} // verus!

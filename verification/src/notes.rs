//! The note, folder, and attachment repository: simple CRUD with
//! referential-integrity maintenance.

use vstd::prelude::*;
use crate::model::{str_eq, Note, NoteAttachment, NoteFolder, NoteInput, NoteV};
use crate::store::{
    attachments_table, checkin_state, delete_folder_and_refs, delete_note_row, folders_table,
    insert_attachment_row, insert_folder_row, insert_note_row, new_uuid, notes_folder_cleared,
    notes_table, now_rfc3339, schema_state, select_all_folders, select_all_notes,
    select_attachments_of_note, stored_note, task_state, update_note_row,
};
use crate::tags::{clean_tags_spec, join_commas, seq_le, split_commas, trim_spec, trim_text};

verus! {

/// Every listed note is stored, every stored note is listed once, and
/// notes come most recently updated first.
pub open spec fn note_listing_ok(m: Map<Seq<char>, NoteV>, v: Seq<Note>) -> bool {
    &&& forall|i: int| 0 <= i < v.len() ==> #[trigger] m.contains_pair(v[i].id@, v[i]@)
    &&& forall|k: Seq<char>| #[trigger] m.dom().contains(k) ==> exists|i: int| 0 <= i < v.len()
        && (#[trigger] v[i]).id@ == k
    &&& forall|i: int, j: int|
        #![trigger v[i], v[j]]
        0 <= i < j < v.len() ==> v[i].id@ != v[j].id@ && seq_le(v[j].updated_at@, v[i].updated_at@)
}

/// Lists every note, most recently updated first.
pub fn list_notes(conn: &rusqlite::Connection) -> (r: Result<Vec<Note>, String>)
    ensures
        r matches Ok(v) ==> note_listing_ok(notes_table(*conn), v@),
{
    let v = select_all_notes(conn)?;
    proof {
        assert forall|i: int, j: int|
            #![trigger v@[i], v@[j]]
            0 <= i < j < v@.len() implies v@[i].id@ != v@[j].id@ && seq_le(
            v@[j].updated_at@,
            v@[i].updated_at@,
        ) by {}
    }
    Ok(v)
}

/// Reads one note by id; a missing id is a failed lookup.
pub fn get_note(conn: &rusqlite::Connection, id: &str) -> (r: Result<Note, String>)
    ensures
        r matches Ok(n) ==> notes_table(*conn).contains_pair(id@, n@) && n.id@ == id@,
{
    let rows = select_all_notes(conn)?;
    let mut i: usize = 0;
    while i < rows.len()
        invariant
            0 <= i <= rows.len(),
            forall|w: int| 0 <= w < rows@.len() ==> #[trigger] notes_table(*conn).contains_pair(
                rows@[w].id@,
                rows@[w]@,
            ),
        decreases rows.len() - i,
    {
        if str_eq(rows[i].id.as_str(), id) {
            let n = rows[i].duplicate();
            return Ok(n);
        }
        i = i + 1;
    }
    Err(String::from_str("Note not found"))
}

/// The title a note write stores: trimmed, with a placeholder for blank
/// titles.
pub open spec fn note_title_spec(title: Seq<char>) -> Seq<char> {
    if trim_spec(title).len() == 0 {
        "Untitled note"@
    } else {
        trim_spec(title)
    }
}

/// The tags of a note as stored, after the trip through the storage
/// column.
pub open spec fn note_tags_spec(tags: Seq<Seq<char>>) -> Seq<Seq<char>> {
    clean_tags_spec(split_commas(join_commas(clean_tags_spec(tags))))
}

fn note_title(title: &str) -> (r: String)
    ensures
        r@ == note_title_spec(title@),
{
    let t = trim_text(title);
    if t.as_str().is_empty() {
        String::from_str("Untitled note")
    } else {
        t
    }
}

/// Creates a note; a blank title becomes the placeholder title.
pub fn create_note(conn: &mut rusqlite::Connection, input: NoteInput) -> (r: Result<Note, String>)
    ensures
        task_state(*final(conn)) == task_state(*old(conn)),
        checkin_state(*final(conn)) == checkin_state(*old(conn)),
        schema_state(*final(conn)) == schema_state(*old(conn)),
        folders_table(*final(conn)) == folders_table(*old(conn)),
        attachments_table(*final(conn)) == attachments_table(*old(conn)),
        r matches Ok(n) ==> {
            &&& !notes_table(*old(conn)).dom().contains(n.id@)
            &&& notes_table(*final(conn)) == notes_table(*old(conn)).insert(n.id@, n@)
            &&& n@.title == note_title_spec(input.title@)
            &&& n@.body_markdown == input.body_markdown@
            &&& n@.tags == note_tags_spec(input.tags.deep_view())
            &&& n@.folder_id == input.folder_id.deep_view()
            &&& n@.created_at == n@.updated_at
        },
        r is Err ==> notes_table(*final(conn)) == notes_table(*old(conn)),
{
    let id = new_uuid();
    let now = now_rfc3339();
    let title = note_title(input.title.as_str());
    let tags_csv = crate::tags::normalize_tags(&input.tags);
    let note = Note {
        id,
        title,
        body_markdown: input.body_markdown.clone(),
        tags: crate::tags::parse_tags(tags_csv.as_str()),
        folder_id: crate::model::clone_opt_string(&input.folder_id),
        created_at: now.clone(),
        updated_at: now,
    };
    proof {
        assert(stored_note(note@, tags_csv@) =~= note@);
    }
    insert_note_row(conn, &note, &tags_csv)?;
    Ok(note)
}

/// Replaces a note's mutable fields; the note must exist.
pub fn update_note(conn: &mut rusqlite::Connection, id: &str, input: NoteInput) -> (r: Result<
    Note,
    String,
>)
    ensures
        task_state(*final(conn)) == task_state(*old(conn)),
        checkin_state(*final(conn)) == checkin_state(*old(conn)),
        schema_state(*final(conn)) == schema_state(*old(conn)),
        folders_table(*final(conn)) == folders_table(*old(conn)),
        attachments_table(*final(conn)) == attachments_table(*old(conn)),
        r matches Ok(n) ==> {
            &&& notes_table(*old(conn)).dom().contains(id@)
            &&& notes_table(*final(conn)) == notes_table(*old(conn)).insert(id@, n@)
            &&& n@.id == id@
            &&& n@.title == note_title_spec(input.title@)
            &&& n@.body_markdown == input.body_markdown@
            &&& n@.tags == note_tags_spec(input.tags.deep_view())
            &&& n@.folder_id == input.folder_id.deep_view()
            &&& n@.created_at == notes_table(*old(conn))[id@].created_at
        },
        r is Err ==> notes_table(*final(conn)) == notes_table(*old(conn)),
{
    let existing = get_note(conn, id)?;
    let now = now_rfc3339();
    let title = note_title(input.title.as_str());
    let tags_csv = crate::tags::normalize_tags(&input.tags);
    let note = Note {
        id: existing.id,
        title,
        body_markdown: input.body_markdown.clone(),
        tags: crate::tags::parse_tags(tags_csv.as_str()),
        folder_id: crate::model::clone_opt_string(&input.folder_id),
        created_at: existing.created_at,
        updated_at: now,
    };
    proof {
        assert(stored_note(note@, tags_csv@) =~= note@);
    }
    update_note_row(conn, &note, &tags_csv)?;
    Ok(note)
}

/// Deletes a note; its attachments go with it.
pub fn delete_note(conn: &mut rusqlite::Connection, id: &String) -> (r: Result<(), String>)
    ensures
        task_state(*final(conn)) == task_state(*old(conn)),
        checkin_state(*final(conn)) == checkin_state(*old(conn)),
        schema_state(*final(conn)) == schema_state(*old(conn)),
        folders_table(*final(conn)) == folders_table(*old(conn)),
        r is Ok ==> notes_table(*final(conn)) == notes_table(*old(conn)).remove(id@),
        r is Ok ==> attachments_table(*final(conn)) == crate::store::retain_values(
            attachments_table(*old(conn)),
            |a: crate::model::NoteAttachmentV| a.note_id != id@,
        ),
        r is Err ==> notes_table(*final(conn)) == notes_table(*old(conn)),
{
    delete_note_row(conn, id)
}

/// Every listed folder is stored, every stored folder listed once, in
/// ASCII-case-folded name order.
pub open spec fn folder_listing_ok(
    m: Map<Seq<char>, crate::model::NoteFolderV>,
    v: Seq<NoteFolder>,
) -> bool {
    &&& forall|i: int| 0 <= i < v.len() ==> #[trigger] m.contains_pair(v[i].id@, v[i]@)
    &&& forall|k: Seq<char>| #[trigger] m.dom().contains(k) ==> exists|i: int| 0 <= i < v.len()
        && (#[trigger] v[i]).id@ == k
    &&& forall|i: int, j: int|
        #![trigger v[i], v[j]]
        0 <= i < j < v.len() ==> v[i].id@ != v[j].id@ && seq_le(
            crate::tags::ascii_lower(v[i].name@),
            crate::tags::ascii_lower(v[j].name@),
        )
}

/// Lists every folder, by case-folded name.
pub fn list_note_folders(conn: &rusqlite::Connection) -> (r: Result<Vec<NoteFolder>, String>)
    ensures
        r matches Ok(v) ==> folder_listing_ok(folders_table(*conn), v@),
{
    let v = select_all_folders(conn)?;
    proof {
        assert forall|i: int, j: int|
            #![trigger v@[i], v@[j]]
            0 <= i < j < v@.len() implies v@[i].id@ != v@[j].id@ && seq_le(
            crate::tags::ascii_lower(v@[i].name@),
            crate::tags::ascii_lower(v@[j].name@),
        ) by {}
    }
    Ok(v)
}

/// Creates a folder; a blank name is rejected before any write.
pub fn create_note_folder(conn: &mut rusqlite::Connection, name: &str) -> (r: Result<
    NoteFolder,
    String,
>)
    ensures
        task_state(*final(conn)) == task_state(*old(conn)),
        checkin_state(*final(conn)) == checkin_state(*old(conn)),
        schema_state(*final(conn)) == schema_state(*old(conn)),
        notes_table(*final(conn)) == notes_table(*old(conn)),
        attachments_table(*final(conn)) == attachments_table(*old(conn)),
        trim_spec(name@).len() == 0 ==> r is Err && folders_table(*final(conn)) == folders_table(
            *old(conn),
        ),
        r matches Ok(f) ==> {
            &&& trim_spec(name@).len() > 0
            &&& f@.name == trim_spec(name@)
            &&& !folders_table(*old(conn)).dom().contains(f.id@)
            &&& folders_table(*final(conn)) == folders_table(*old(conn)).insert(f.id@, f@)
        },
        r is Err ==> folders_table(*final(conn)) == folders_table(*old(conn)),
{
    let cleaned = trim_text(name);
    if cleaned.as_str().is_empty() {
        return Err(String::from_str("Folder name cannot be empty"));
    }
    let now = now_rfc3339();
    let folder = NoteFolder {
        id: new_uuid(),
        name: cleaned,
        created_at: now.clone(),
        updated_at: now,
    };
    insert_folder_row(conn, &folder)?;
    Ok(folder)
}

/// Deletes a folder: inside one transaction its notes are pointed at no
/// folder and the folder row goes; a missing folder is an error and
/// changes nothing.
pub fn delete_note_folder(conn: &mut rusqlite::Connection, folder_id: &String) -> (r: Result<
    (),
    String,
>)
    ensures
        task_state(*final(conn)) == task_state(*old(conn)),
        checkin_state(*final(conn)) == checkin_state(*old(conn)),
        schema_state(*final(conn)) == schema_state(*old(conn)),
        attachments_table(*final(conn)) == attachments_table(*old(conn)),
        r is Ok ==> {
            &&& folders_table(*old(conn)).dom().contains(folder_id@)
            &&& folders_table(*final(conn)) == folders_table(*old(conn)).remove(folder_id@)
            &&& notes_table(*final(conn)) == notes_folder_cleared(
                notes_table(*old(conn)),
                folder_id@,
            )
        },
        r is Err ==> folders_table(*final(conn)) == folders_table(*old(conn)) && notes_table(
            *final(conn),
        ) == notes_table(*old(conn)),
{
    let folders = select_all_folders(conn)?;
    let mut i: usize = 0;
    let mut found = false;
    while i < folders.len()
        invariant
            0 <= i <= folders.len(),
            forall|w: int| 0 <= w < folders@.len() ==> #[trigger] folders_table(
                *conn,
            ).contains_pair(folders@[w].id@, folders@[w]@),
            found ==> folders_table(*conn).dom().contains(folder_id@),
        decreases folders.len() - i,
    {
        if str_eq(folders[i].id.as_str(), folder_id.as_str()) {
            proof {
                assert(folders_table(*conn).contains_pair(folders@[i as int].id@,
                    folders@[i as int]@));
            }
            found = true;
        }
        i = i + 1;
    }
    if !found {
        return Err(String::from_str("Folder not found"));
    }
    delete_folder_and_refs(conn, folder_id)
}

/// Every listed attachment is stored and belongs to the note, every
/// stored attachment of the note is listed once, newest first.
pub open spec fn attachment_listing_ok(
    m: Map<Seq<char>, crate::model::NoteAttachmentV>,
    v: Seq<NoteAttachment>,
    note_id: Seq<char>,
) -> bool {
    &&& forall|i: int| 0 <= i < v.len() ==> #[trigger] m.contains_pair(v[i].id@, v[i]@)
        && v[i].note_id@ == note_id
    &&& forall|k: Seq<char>| #[trigger] m.dom().contains(k) && m[k].note_id == note_id
        ==> exists|i: int| 0 <= i < v.len() && (#[trigger] v[i]).id@ == k
    &&& forall|i: int, j: int|
        #![trigger v[i], v[j]]
        0 <= i < j < v.len() ==> v[i].id@ != v[j].id@ && seq_le(v[j].created_at@, v[i].created_at@)
}

/// Lists a note's attachments, newest first.
pub fn list_note_attachments(conn: &rusqlite::Connection, note_id: &String) -> (r: Result<
    Vec<NoteAttachment>,
    String,
>)
    ensures
        r matches Ok(v) ==> attachment_listing_ok(attachments_table(*conn), v@, note_id@),
{
    let v = select_attachments_of_note(conn, note_id)?;
    proof {
        assert forall|i: int, j: int|
            #![trigger v@[i], v@[j]]
            0 <= i < j < v@.len() implies v@[i].id@ != v@[j].id@ && seq_le(
            v@[j].created_at@,
            v@[i].created_at@,
        ) by {}
    }
    Ok(v)
}

/// Records an attachment row for a stored file of a note.
pub fn create_note_attachment(
    conn: &mut rusqlite::Connection,
    note_id: &str,
    filename: &str,
    path_relative: &str,
) -> (r: Result<NoteAttachment, String>)
    ensures
        task_state(*final(conn)) == task_state(*old(conn)),
        checkin_state(*final(conn)) == checkin_state(*old(conn)),
        schema_state(*final(conn)) == schema_state(*old(conn)),
        notes_table(*final(conn)) == notes_table(*old(conn)),
        folders_table(*final(conn)) == folders_table(*old(conn)),
        r matches Ok(a) ==> {
            &&& !attachments_table(*old(conn)).dom().contains(a.id@)
            &&& attachments_table(*final(conn)) == attachments_table(*old(conn)).insert(
                a.id@,
                a@,
            )
            &&& a@.note_id == note_id@
            &&& a@.filename == filename@
            &&& a@.path_relative == path_relative@
        },
        r is Err ==> attachments_table(*final(conn)) == attachments_table(*old(conn)),
{
    let now = now_rfc3339();
    let row = NoteAttachment {
        id: new_uuid(),
        note_id: String::from_str(note_id),
        filename: String::from_str(filename),
        path_relative: String::from_str(path_relative),
        created_at: now,
    };
    insert_attachment_row(conn, &row)?;
    Ok(row)
}

} // verus!

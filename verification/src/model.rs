//! The entities of the workspace store, their mathematical views, and
//! the input-normalization rules applied before any write.

use vstd::prelude::*;
use crate::tags::{trim_spec, trim_text};

verus! {

#[derive(Debug, Clone)]
pub struct Task {
    pub id: String,
    pub title: String,
    pub notes: Option<String>,
    pub tags: Vec<String>,
    pub target_date: String,
    pub status: String,
    pub progress_percent: i32,
    pub deadline_at: Option<String>,
    pub is_recurring: bool,
    pub recurrence_type: Option<String>,
    pub recurrence_interval: Option<i32>,
    pub recurrence_weekdays: Option<String>,
    pub timer_enabled: bool,
    pub timer_minutes: Option<i32>,
    pub timer_state: Option<String>,
    pub timer_ends_at: Option<String>,
    pub rolled_over: bool,
    pub rolled_from_date: Option<String>,
    pub sort_order: i64,
    pub created_at: String,
    pub updated_at: String,
}

#[verifier::ext_equal]
pub struct TaskV {
    pub id: Seq<char>,
    pub title: Seq<char>,
    pub notes: Option<Seq<char>>,
    pub tags: Seq<Seq<char>>,
    pub target_date: Seq<char>,
    pub status: Seq<char>,
    pub progress_percent: int,
    pub deadline_at: Option<Seq<char>>,
    pub is_recurring: bool,
    pub recurrence_type: Option<Seq<char>>,
    pub recurrence_interval: Option<int>,
    pub recurrence_weekdays: Option<Seq<char>>,
    pub timer_enabled: bool,
    pub timer_minutes: Option<int>,
    pub timer_state: Option<Seq<char>>,
    pub timer_ends_at: Option<Seq<char>>,
    pub rolled_over: bool,
    pub rolled_from_date: Option<Seq<char>>,
    pub sort_order: int,
    pub created_at: Seq<char>,
    pub updated_at: Seq<char>,
}

pub open spec fn opt_int(v: Option<i32>) -> Option<int> {
    match v {
        Some(x) => Some(x as int),
        None => None,
    }
}

impl View for Task {
    type V = TaskV;

    open spec fn view(&self) -> TaskV {
        TaskV {
            id: self.id@,
            title: self.title@,
            notes: self.notes.deep_view(),
            tags: self.tags.deep_view(),
            target_date: self.target_date@,
            status: self.status@,
            progress_percent: self.progress_percent as int,
            deadline_at: self.deadline_at.deep_view(),
            is_recurring: self.is_recurring,
            recurrence_type: self.recurrence_type.deep_view(),
            recurrence_interval: opt_int(self.recurrence_interval),
            recurrence_weekdays: self.recurrence_weekdays.deep_view(),
            timer_enabled: self.timer_enabled,
            timer_minutes: opt_int(self.timer_minutes),
            timer_state: self.timer_state.deep_view(),
            timer_ends_at: self.timer_ends_at.deep_view(),
            rolled_over: self.rolled_over,
            rolled_from_date: self.rolled_from_date.deep_view(),
            sort_order: self.sort_order as int,
            created_at: self.created_at@,
            updated_at: self.updated_at@,
        }
    }
}

impl DeepView for Task {
    type V = TaskV;

    open spec fn deep_view(&self) -> TaskV {
        self.view()
    }
}

#[derive(Debug, Clone)]
pub struct TaskInput {
    pub title: String,
    pub notes: Option<String>,
    pub tags: Vec<String>,
    pub target_date: String,
    pub status: String,
    pub progress_percent: i32,
    pub deadline_at: Option<String>,
    pub is_recurring: bool,
    pub recurrence_type: Option<String>,
    pub recurrence_interval: Option<i32>,
    pub recurrence_weekdays: Option<String>,
    pub timer_enabled: bool,
    pub timer_minutes: Option<i32>,
}

#[verifier::ext_equal]
pub struct TaskInputV {
    pub title: Seq<char>,
    pub notes: Option<Seq<char>>,
    pub tags: Seq<Seq<char>>,
    pub target_date: Seq<char>,
    pub status: Seq<char>,
    pub progress_percent: int,
    pub deadline_at: Option<Seq<char>>,
    pub is_recurring: bool,
    pub recurrence_type: Option<Seq<char>>,
    pub recurrence_interval: Option<int>,
    pub recurrence_weekdays: Option<Seq<char>>,
    pub timer_enabled: bool,
    pub timer_minutes: Option<int>,
}

impl View for TaskInput {
    type V = TaskInputV;

    open spec fn view(&self) -> TaskInputV {
        TaskInputV {
            title: self.title@,
            notes: self.notes.deep_view(),
            tags: self.tags.deep_view(),
            target_date: self.target_date@,
            status: self.status@,
            progress_percent: self.progress_percent as int,
            deadline_at: self.deadline_at.deep_view(),
            is_recurring: self.is_recurring,
            recurrence_type: self.recurrence_type.deep_view(),
            recurrence_interval: opt_int(self.recurrence_interval),
            recurrence_weekdays: self.recurrence_weekdays.deep_view(),
            timer_enabled: self.timer_enabled,
            timer_minutes: opt_int(self.timer_minutes),
        }
    }
}

#[derive(Debug, Clone)]
pub struct TaskOverview {
    pub today: Vec<Task>,
    pub rolled_over: Vec<Task>,
    pub upcoming: Vec<Task>,
}

#[derive(Debug, Clone)]
pub struct Note {
    pub id: String,
    pub title: String,
    pub body_markdown: String,
    pub tags: Vec<String>,
    pub folder_id: Option<String>,
    pub created_at: String,
    pub updated_at: String,
}

#[verifier::ext_equal]
pub struct NoteV {
    pub id: Seq<char>,
    pub title: Seq<char>,
    pub body_markdown: Seq<char>,
    pub tags: Seq<Seq<char>>,
    pub folder_id: Option<Seq<char>>,
    pub created_at: Seq<char>,
    pub updated_at: Seq<char>,
}

impl View for Note {
    type V = NoteV;

    open spec fn view(&self) -> NoteV {
        NoteV {
            id: self.id@,
            title: self.title@,
            body_markdown: self.body_markdown@,
            tags: self.tags.deep_view(),
            folder_id: self.folder_id.deep_view(),
            created_at: self.created_at@,
            updated_at: self.updated_at@,
        }
    }
}

impl DeepView for Note {
    type V = NoteV;

    open spec fn deep_view(&self) -> NoteV {
        self.view()
    }
}

#[derive(Debug, Clone)]
pub struct NoteInput {
    pub title: String,
    pub body_markdown: String,
    pub tags: Vec<String>,
    pub folder_id: Option<String>,
}

#[derive(Debug, Clone)]
pub struct NoteAttachment {
    pub id: String,
    pub note_id: String,
    pub filename: String,
    pub path_relative: String,
    pub created_at: String,
}

#[verifier::ext_equal]
pub struct NoteAttachmentV {
    pub id: Seq<char>,
    pub note_id: Seq<char>,
    pub filename: Seq<char>,
    pub path_relative: Seq<char>,
    pub created_at: Seq<char>,
}

impl View for NoteAttachment {
    type V = NoteAttachmentV;

    open spec fn view(&self) -> NoteAttachmentV {
        NoteAttachmentV {
            id: self.id@,
            note_id: self.note_id@,
            filename: self.filename@,
            path_relative: self.path_relative@,
            created_at: self.created_at@,
        }
    }
}

impl DeepView for NoteAttachment {
    type V = NoteAttachmentV;

    open spec fn deep_view(&self) -> NoteAttachmentV {
        self.view()
    }
}

#[derive(Debug, Clone)]
pub struct NoteFolder {
    pub id: String,
    pub name: String,
    pub created_at: String,
    pub updated_at: String,
}

#[verifier::ext_equal]
pub struct NoteFolderV {
    pub id: Seq<char>,
    pub name: Seq<char>,
    pub created_at: Seq<char>,
    pub updated_at: Seq<char>,
}

impl View for NoteFolder {
    type V = NoteFolderV;

    open spec fn view(&self) -> NoteFolderV {
        NoteFolderV {
            id: self.id@,
            name: self.name@,
            created_at: self.created_at@,
            updated_at: self.updated_at@,
        }
    }
}

impl DeepView for NoteFolder {
    type V = NoteFolderV;

    open spec fn deep_view(&self) -> NoteFolderV {
        self.view()
    }
}

#[derive(Debug, Clone)]
pub struct CheckinPerson {
    pub id: String,
    pub name: String,
    pub relationship: String,
    pub created_at: String,
    pub updated_at: String,
}

#[verifier::ext_equal]
pub struct CheckinPersonV {
    pub id: Seq<char>,
    pub name: Seq<char>,
    pub relationship: Seq<char>,
    pub created_at: Seq<char>,
    pub updated_at: Seq<char>,
}

impl View for CheckinPerson {
    type V = CheckinPersonV;

    open spec fn view(&self) -> CheckinPersonV {
        CheckinPersonV {
            id: self.id@,
            name: self.name@,
            relationship: self.relationship@,
            created_at: self.created_at@,
            updated_at: self.updated_at@,
        }
    }
}

impl DeepView for CheckinPerson {
    type V = CheckinPersonV;

    open spec fn deep_view(&self) -> CheckinPersonV {
        self.view()
    }
}

#[derive(Debug, Clone)]
pub struct CheckinPersonInput {
    pub name: String,
    pub relationship: String,
}

#[derive(Debug, Clone)]
pub struct Checkin {
    pub id: String,
    pub person_id: String,
    pub checkin_date: String,
    pub discussion: Option<String>,
    pub notes: Option<String>,
    pub action_items: Option<String>,
    pub next_checkin_date: Option<String>,
    pub reminder_enabled: bool,
    pub reminder_time: Option<String>,
    pub reminder_state: Option<String>,
    pub created_at: String,
    pub updated_at: String,
}

#[verifier::ext_equal]
pub struct CheckinV {
    pub id: Seq<char>,
    pub person_id: Seq<char>,
    pub checkin_date: Seq<char>,
    pub discussion: Option<Seq<char>>,
    pub notes: Option<Seq<char>>,
    pub action_items: Option<Seq<char>>,
    pub next_checkin_date: Option<Seq<char>>,
    pub reminder_enabled: bool,
    pub reminder_time: Option<Seq<char>>,
    pub reminder_state: Option<Seq<char>>,
    pub created_at: Seq<char>,
    pub updated_at: Seq<char>,
}

impl View for Checkin {
    type V = CheckinV;

    open spec fn view(&self) -> CheckinV {
        CheckinV {
            id: self.id@,
            person_id: self.person_id@,
            checkin_date: self.checkin_date@,
            discussion: self.discussion.deep_view(),
            notes: self.notes.deep_view(),
            action_items: self.action_items.deep_view(),
            next_checkin_date: self.next_checkin_date.deep_view(),
            reminder_enabled: self.reminder_enabled,
            reminder_time: self.reminder_time.deep_view(),
            reminder_state: self.reminder_state.deep_view(),
            created_at: self.created_at@,
            updated_at: self.updated_at@,
        }
    }
}

impl DeepView for Checkin {
    type V = CheckinV;

    open spec fn deep_view(&self) -> CheckinV {
        self.view()
    }
}

#[derive(Debug, Clone)]
pub struct CheckinInput {
    pub person_id: String,
    pub checkin_date: String,
    pub discussion: Option<String>,
    pub notes: Option<String>,
    pub action_items: Option<String>,
    pub next_checkin_date: Option<String>,
    pub reminder_enabled: bool,
    pub reminder_time: Option<String>,
}

#[verifier::ext_equal]
pub struct CheckinInputV {
    pub person_id: Seq<char>,
    pub checkin_date: Seq<char>,
    pub discussion: Option<Seq<char>>,
    pub notes: Option<Seq<char>>,
    pub action_items: Option<Seq<char>>,
    pub next_checkin_date: Option<Seq<char>>,
    pub reminder_enabled: bool,
    pub reminder_time: Option<Seq<char>>,
}

impl View for CheckinInput {
    type V = CheckinInputV;

    open spec fn view(&self) -> CheckinInputV {
        CheckinInputV {
            person_id: self.person_id@,
            checkin_date: self.checkin_date@,
            discussion: self.discussion.deep_view(),
            notes: self.notes.deep_view(),
            action_items: self.action_items.deep_view(),
            next_checkin_date: self.next_checkin_date.deep_view(),
            reminder_enabled: self.reminder_enabled,
            reminder_time: self.reminder_time.deep_view(),
        }
    }
}

#[derive(Debug, Clone)]
pub struct CheckinReminder {
    pub checkin_id: String,
    pub person_name: String,
    pub next_checkin_date: String,
    pub reminder_time: String,
}

#[derive(Debug, Clone)]
pub struct Settings {
    pub workspace_path: Option<String>,
}

#[derive(Debug, Clone)]
pub struct StoredAttachment {
    pub filename: String,
    pub path_relative: String,
}

/// Character-by-character equality of two text slices.
pub fn str_eq(a: &str, b: &str) -> (r: bool)
    ensures
        r == (a@ == b@),
{
    let la = a.unicode_len();
    let lb = b.unicode_len();
    if la != lb {
        proof {
            assert(a@ != b@);
        }
        return false;
    }
    let mut i: usize = 0;
    while i < la
        invariant
            0 <= i <= la,
            la == a@.len() == b@.len(),
            forall|k: int| 0 <= k < i ==> a@[k] == b@[k],
        decreases la - i,
    {
        if a.get_char(i) != b.get_char(i) {
            return false;
        }
        i = i + 1;
    }
    proof {
        assert(a@ =~= b@);
    }
    true
}

/// Strict lexicographic comparison of two text slices by code point.
pub fn str_lt(a: &str, b: &str) -> (r: bool)
    ensures
        r == crate::tags::seq_lt(a@, b@),
{
    let la = a.unicode_len();
    let lb = b.unicode_len();
    let mut k: usize = 0;
    proof {
        assert(a@.skip(0) =~= a@);
        assert(b@.skip(0) =~= b@);
    }
    loop
        invariant
            0 <= k <= la,
            k <= lb,
            la == a@.len(),
            lb == b@.len(),
            crate::tags::seq_lt(a@, b@) == crate::tags::seq_lt(
                a@.skip(k as int),
                b@.skip(k as int),
            ),
        decreases la - k,
    {
        if k == lb {
            proof {
                assert(b@.skip(k as int) =~= Seq::<char>::empty());
            }
            return false;
        }
        if k == la {
            proof {
                assert(a@.skip(k as int) =~= Seq::<char>::empty());
                assert(b@.skip(k as int).len() > 0);
            }
            return true;
        }
        let ca = a.get_char(k);
        let cb = b.get_char(k);
        proof {
            assert(a@.skip(k as int)[0] == a@[k as int]);
            assert(b@.skip(k as int)[0] == b@[k as int]);
            assert(a@.skip(k as int).skip(1) =~= a@.skip(k as int + 1));
            assert(b@.skip(k as int).skip(1) =~= b@.skip(k as int + 1));
        }
        if ca < cb {
            return true;
        }
        if cb < ca {
            return false;
        }
        k = k + 1;
    }
}

/// Copies a tag list, preserving its view.
pub fn clone_strings(v: &Vec<String>) -> (r: Vec<String>)
    ensures
        r.deep_view() == v.deep_view(),
{
    let mut out: Vec<String> = Vec::new();
    let mut i: usize = 0;
    while i < v.len()
        invariant
            0 <= i <= v.len(),
            out@.len() == i,
            forall|k: int| 0 <= k < i ==> #[trigger] out@[k]@ == v@[k]@,
        decreases v.len() - i,
    {
        let c = v[i].clone();
        proof {
            assert(c@ == v@[i as int]@);
        }
        out.push(c);
        i = i + 1;
    }
    proof {
        assert(out.deep_view() =~= v.deep_view());
    }
    out
}

/// Copies an optional text, preserving its view.
pub fn clone_opt_string(v: &Option<String>) -> (r: Option<String>)
    ensures
        r.deep_view() == v.deep_view(),
{
    match v {
        Some(s) => Some(s.clone()),
        None => None,
    }
}

impl Task {
    /// A field-for-field copy with the same view.
    pub fn duplicate(&self) -> (r: Task)
        ensures
            r@ == self@,
    {
        Task {
            id: self.id.clone(),
            title: self.title.clone(),
            notes: clone_opt_string(&self.notes),
            tags: clone_strings(&self.tags),
            target_date: self.target_date.clone(),
            status: self.status.clone(),
            progress_percent: self.progress_percent,
            deadline_at: clone_opt_string(&self.deadline_at),
            is_recurring: self.is_recurring,
            recurrence_type: clone_opt_string(&self.recurrence_type),
            recurrence_interval: self.recurrence_interval,
            recurrence_weekdays: clone_opt_string(&self.recurrence_weekdays),
            timer_enabled: self.timer_enabled,
            timer_minutes: self.timer_minutes,
            timer_state: clone_opt_string(&self.timer_state),
            timer_ends_at: clone_opt_string(&self.timer_ends_at),
            rolled_over: self.rolled_over,
            rolled_from_date: clone_opt_string(&self.rolled_from_date),
            sort_order: self.sort_order,
            created_at: self.created_at.clone(),
            updated_at: self.updated_at.clone(),
        }
    }
}

impl Note {
    /// A field-for-field copy with the same view.
    pub fn duplicate(&self) -> (r: Note)
        ensures
            r@ == self@,
    {
        Note {
            id: self.id.clone(),
            title: self.title.clone(),
            body_markdown: self.body_markdown.clone(),
            tags: clone_strings(&self.tags),
            folder_id: clone_opt_string(&self.folder_id),
            created_at: self.created_at.clone(),
            updated_at: self.updated_at.clone(),
        }
    }
}

impl NoteFolder {
    /// A field-for-field copy with the same view.
    pub fn duplicate(&self) -> (r: NoteFolder)
        ensures
            r@ == self@,
    {
        NoteFolder {
            id: self.id.clone(),
            name: self.name.clone(),
            created_at: self.created_at.clone(),
            updated_at: self.updated_at.clone(),
        }
    }
}

impl NoteAttachment {
    /// A field-for-field copy with the same view.
    pub fn duplicate(&self) -> (r: NoteAttachment)
        ensures
            r@ == self@,
    {
        NoteAttachment {
            id: self.id.clone(),
            note_id: self.note_id.clone(),
            filename: self.filename.clone(),
            path_relative: self.path_relative.clone(),
            created_at: self.created_at.clone(),
        }
    }
}

impl CheckinPerson {
    /// A field-for-field copy with the same view.
    pub fn duplicate(&self) -> (r: CheckinPerson)
        ensures
            r@ == self@,
    {
        CheckinPerson {
            id: self.id.clone(),
            name: self.name.clone(),
            relationship: self.relationship.clone(),
            created_at: self.created_at.clone(),
            updated_at: self.updated_at.clone(),
        }
    }
}

impl Checkin {
    /// A field-for-field copy with the same view.
    pub fn duplicate(&self) -> (r: Checkin)
        ensures
            r@ == self@,
    {
        Checkin {
            id: self.id.clone(),
            person_id: self.person_id.clone(),
            checkin_date: self.checkin_date.clone(),
            discussion: clone_opt_string(&self.discussion),
            notes: clone_opt_string(&self.notes),
            action_items: clone_opt_string(&self.action_items),
            next_checkin_date: clone_opt_string(&self.next_checkin_date),
            reminder_enabled: self.reminder_enabled,
            reminder_time: clone_opt_string(&self.reminder_time),
            reminder_state: clone_opt_string(&self.reminder_state),
            created_at: self.created_at.clone(),
            updated_at: self.updated_at.clone(),
        }
    }
}

pub open spec fn normalize_optional_text_spec(v: Option<Seq<char>>) -> Option<Seq<char>> {
    match v {
        None => None,
        Some(s) => if trim_spec(s).len() == 0 {
            None
        } else {
            Some(trim_spec(s))
        },
    }
}

/// Trims optional text and turns blank text into absence.
pub fn normalize_optional_text(value: Option<String>) -> (r: Option<String>)
    ensures
        r.deep_view() == normalize_optional_text_spec(value.deep_view()),
{
    match value {
        None => None,
        Some(s) => {
            let t = trim_text(s.as_str());
            if t.as_str().is_empty() {
                None
            } else {
                Some(t)
            }
        },
    }
}

pub open spec fn relationship_allowed(s: Seq<char>) -> bool {
    s == "manager"@ || s == "report"@ || s == "peer"@
}

/// Accepts exactly the known relationship kinds, trimmed.
pub fn normalize_relationship(value: &str) -> (r: Result<String, String>)
    ensures
        r is Ok <==> relationship_allowed(trim_spec(value@)),
        r is Ok ==> r->Ok_0@ == trim_spec(value@),
{
    let t = trim_text(value);
    if str_eq(t.as_str(), "manager") || str_eq(t.as_str(), "report") || str_eq(t.as_str(), "peer") {
        Ok(t)
    } else {
        Err(String::from_str("Relationship must be one of: manager, report, peer"))
    }
}

pub open spec fn reminder_state_spec(enabled: bool, has_date: bool, has_time: bool) -> Seq<char> {
    if enabled && has_date && has_time {
        "scheduled"@
    } else {
        "idle"@
    }
}

/// The reminder state a check-in write stores, from what the write has.
pub fn normalize_reminder_state(
    reminder_enabled: bool,
    next_checkin_date: Option<&str>,
    reminder_time: Option<&str>,
) -> (r: Option<String>)
    ensures
        r is Some,
        r->Some_0@ == reminder_state_spec(
            reminder_enabled,
            next_checkin_date is Some,
            reminder_time is Some,
        ),
{
    if !reminder_enabled {
        return Some(String::from_str("idle"));
    }
    if next_checkin_date.is_some() && reminder_time.is_some() {
        Some(String::from_str("scheduled"))
    } else {
        Some(String::from_str("idle"))
    }
}

pub open spec fn rec_type_spec(inp: TaskInputV) -> Option<Seq<char>> {
    if inp.is_recurring {
        inp.recurrence_type
    } else {
        None
    }
}

pub open spec fn rec_interval_spec(inp: TaskInputV) -> int {
    if inp.is_recurring {
        let v = match inp.recurrence_interval {
            Some(x) => x,
            None => 1,
        };
        if v >= 1 { v } else { 1 }
    } else {
        1
    }
}

pub open spec fn rec_weekdays_spec(inp: TaskInputV) -> Option<Seq<char>> {
    if inp.is_recurring && rec_type_spec(inp) == Some("weekly"@) {
        inp.recurrence_weekdays
    } else {
        None
    }
}

pub open spec fn timer_minutes_spec(inp: TaskInputV) -> Option<int> {
    if inp.timer_enabled {
        let v = match inp.timer_minutes {
            Some(x) => x,
            None => 25,
        };
        Some(if v >= 1 { v } else { 1 })
    } else {
        None
    }
}

pub open spec fn timer_state_spec(inp: TaskInputV) -> Option<Seq<char>> {
    if inp.timer_enabled {
        Some("idle"@)
    } else {
        None
    }
}

pub open spec fn opt_view_eq(a: Option<String>, s: Option<Seq<char>>) -> bool {
    a.deep_view() == s
}

/// Normalizes the recurrence and timer fields of a task write:
/// recurrence fields are kept only on recurring tasks, the interval and
/// the timer minutes are clamped to at least 1, weekday sets are kept
/// only for weekly rules, and an enabled timer starts idle.
pub fn normalize_input(input: &TaskInput) -> (r: (
    i32,
    Option<String>,
    i32,
    Option<String>,
    i32,
    Option<i32>,
    Option<String>,
))
    ensures
        r.0 == if input.is_recurring { 1i32 } else { 0i32 },
        r.1.deep_view() == rec_type_spec(input@),
        r.2 as int == rec_interval_spec(input@),
        r.3.deep_view() == rec_weekdays_spec(input@),
        r.4 == if input.timer_enabled { 1i32 } else { 0i32 },
        opt_int(r.5) == timer_minutes_spec(input@),
        r.6.deep_view() == timer_state_spec(input@),
{
    let recurring: i32 = if input.is_recurring { 1 } else { 0 };
    let recurrence_type = if input.is_recurring {
        clone_opt_string(&input.recurrence_type)
    } else {
        None
    };
    let recurrence_interval: i32 = if input.is_recurring {
        let v = match input.recurrence_interval {
            Some(x) => x,
            None => 1,
        };
        if v >= 1 { v } else { 1 }
    } else {
        1
    };
    let is_weekly = match &recurrence_type {
        Some(t) => str_eq(t.as_str(), "weekly"),
        None => false,
    };
    let recurrence_weekdays = if input.is_recurring && is_weekly {
        clone_opt_string(&input.recurrence_weekdays)
    } else {
        None
    };
    let timer_enabled: i32 = if input.timer_enabled { 1 } else { 0 };
    let timer_minutes: Option<i32> = if input.timer_enabled {
        let v = match input.timer_minutes {
            Some(x) => x,
            None => 25,
        };
        Some(if v >= 1 { v } else { 1 })
    } else {
        None
    };
    let timer_state = if input.timer_enabled {
        Some(String::from_str("idle"))
    } else {
        None
    };
    (
        recurring,
        recurrence_type,
        recurrence_interval,
        recurrence_weekdays,
        timer_enabled,
        timer_minutes,
        timer_state,
    )
}

/// The configured workspace path, or the distinct "not configured" error.
pub fn workspace_from_settings(settings: &Settings) -> (r: Result<String, String>)
    ensures
        r is Ok <==> settings.workspace_path is Some,
        r is Ok ==> r->Ok_0@ == settings.workspace_path->Some_0@,
{
    match &settings.workspace_path {
        Some(p) => Ok(p.clone()),
        None => Err(String::from_str("Workspace not set")),
    }
}

/// The file name and workspace-relative path for a note image saved at
/// a given timestamp; rejects empty content before anything is written.
pub fn plan_note_image(note_id: &str, stamp: &str, content_len: usize) -> (r: Result<
    StoredAttachment,
    String,
>)
    ensures
        r is Ok <==> content_len > 0,
        r is Ok ==> r->Ok_0.filename@ == stamp@ + ".png"@,
        r is Ok ==> r->Ok_0.path_relative@ == "attachments/"@ + note_id@ + "/"@ + stamp@
            + ".png"@,
{
    if content_len == 0 {
        return Err(String::from_str("Attachment is empty"));
    }
    let mut filename = String::from_str(stamp);
    filename.append(".png");
    let mut path = String::from_str("attachments/");
    path.append(note_id);
    path.append("/");
    path.append(filename.as_str());
    Ok(StoredAttachment { filename, path_relative: path })
}

} // verus!

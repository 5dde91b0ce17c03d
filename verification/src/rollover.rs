//! The rollover decision: which tasks the daily sweep carries forward.

use vstd::prelude::*;
use crate::dates::{date_lt, date_of_text, date_text_valid, date_valid, parse_date, Date};

verus! {

/// Whether a task should roll over on `today`: its date parses, lies
/// strictly before today, and the task is not done. Unparseable dates
/// are an error.
pub fn should_rollover(target_date: &str, status: &str, today: Date) -> (r: Result<bool, String>)
    requires
        date_valid(today),
    ensures
        r is Ok <==> date_text_valid(target_date@),
        r matches Ok(b) ==> b == (date_lt(date_of_text(target_date@), today) && status@
            != "done"@),
{
    let date = parse_date(target_date)?;
    let overdue = crate::dates::date_before(&date, &today);
    let not_done = !crate::model::str_eq(status, "done");
    Ok(overdue && not_done)
}

} // verus!

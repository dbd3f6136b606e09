//! Fixed appointments: which events a write may not touch or move to another day.

use crate::daylite::projects::{fixed_appointment_category, fixed_appointment_category_text, ResolvedProject};
use crate::text::{opt_view, text_eq};
use vstd::prelude::*;

verus! {

/// The message a refused write to a fixed appointment answers with.
pub open spec fn fixed_appointment_message() -> Seq<char> {
    "Dieser Termin ist als 'Termin FIX geplant' gesperrt und kann nicht geändert, auf einen anderen Tag verschoben oder gelöscht werden."@
}

/// The message a refused write to a fixed appointment answers with.
pub fn fixed_appointment_message_text() -> (r: &'static str)
    ensures
        r@ == fixed_appointment_message(),
{
    "Dieser Termin ist als 'Termin FIX geplant' gesperrt und kann nicht geändert, auf einen anderen Tag verschoben oder gelöscht werden."
}

/// A bare event (no Daylite reference) was not made by the planner and is
/// protected; a linked event is protected exactly when its resolved project
/// is a fixed appointment. A project that could not be resolved fails open.
pub open spec fn is_protected_spec(project_ref: Option<Seq<char>>, category: Option<Option<Seq<char>>>) -> bool {
    match project_ref {
        None => true,
        Some(_) => category == Some(Some(fixed_appointment_category())),
    }
}

/// The category of a resolved project, if the project resolved.
pub open spec fn resolved_category(project: Option<&ResolvedProject>) -> Option<Option<Seq<char>>> {
    match project {
        Some(p) => Some(opt_view(p.category)),
        None => None,
    }
}

/// Whether a write to the event is refused (see `is_protected_spec`).
pub fn is_protected_event(project_ref: Option<&str>, project: Option<&ResolvedProject>) -> (r: bool)
    ensures
        r == is_protected_spec(
            match project_ref {
                Some(s) => Some(s@),
                None => None,
            },
            resolved_category(project),
        ),
{
    if project_ref.is_none() {
        return true;
    }
    match project {
        Some(p) => match &p.category {
            Some(c) => text_eq(c.as_str(), fixed_appointment_category_text()),
            None => false,
        },
        None => false,
    }
}

/// Only the day of a fixed appointment is committed: a move is refused when
/// it changes the date of a protected event.
pub fn protects_day_change(
    event_date: &str,
    target_date: &str,
    project_ref: Option<&str>,
    project: Option<&ResolvedProject>,
) -> (r: bool)
    ensures
        r == (event_date@ != target_date@ && is_protected_spec(
            match project_ref {
                Some(s) => Some(s@),
                None => None,
            },
            resolved_category(project),
        )),
{
    !text_eq(event_date, target_date) && is_protected_event(project_ref, project)
}

/// Refuses a protected write with the fixed-appointment message.
pub fn refuse(protected: bool) -> (r: Result<(), String>)
    ensures
        protected <==> r is Err,
        r matches Err(m) ==> m@ == fixed_appointment_message(),
{
    if protected {
        return Err(fixed_appointment_message_text().to_owned());
    }
    Ok(())
}

} // verus!

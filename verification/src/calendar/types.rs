//! The event records that flow from the CalDAV server to the planning grid.

use crate::dates::CalendarDate;
use crate::text::opt_view;
use vstd::prelude::*;

verus! {

/// What a cell of the grid shows an event as.
#[derive(Clone, Copy, Debug, PartialEq, Eq, Structural)]
pub enum CalendarEventKind {
    /// A planner assignment linked to a Daylite project via its DESCRIPTION.
    Assignment,
    /// A calendar event without a Daylite project link.
    Bare,
    /// An all-day absence from the employee's absence calendar.
    Absence,
}

/// One event as the planning grid shows it.
#[derive(Clone, Debug, PartialEq, Eq)]
pub struct CalendarCellEvent {
    pub uid: String,
    pub kind: CalendarEventKind,
    pub title: String,
    pub project_status: Option<String>,
    pub project_category: Option<String>,
    pub category_color: Option<String>,
    pub project_ref: Option<String>,
    /// `yyyy-MM-dd`.
    pub date: String,
    /// `HH:MM`, none for all-day events.
    pub start_time: Option<String>,
    /// `HH:MM`, none for all-day events.
    pub end_time: Option<String>,
    /// CalDAV resource path used for PUT and DELETE.
    pub href: Option<String>,
    /// Position among the day's assignments.
    pub order_index: Option<u32>,
}

/// The abstract content of a grid cell.
pub struct CellView {
    pub uid: Seq<char>,
    pub kind: CalendarEventKind,
    pub title: Seq<char>,
    pub project_status: Option<Seq<char>>,
    pub project_category: Option<Seq<char>>,
    pub category_color: Option<Seq<char>>,
    pub project_ref: Option<Seq<char>>,
    pub date: Seq<char>,
    pub start_time: Option<Seq<char>>,
    pub end_time: Option<Seq<char>>,
    pub href: Option<Seq<char>>,
    pub order_index: Option<u32>,
}

impl View for CalendarCellEvent {
    type V = CellView;

    open spec fn view(&self) -> CellView {
        CellView {
            uid: self.uid@,
            kind: self.kind,
            title: self.title@,
            project_status: opt_view(self.project_status),
            project_category: opt_view(self.project_category),
            category_color: opt_view(self.category_color),
            project_ref: opt_view(self.project_ref),
            date: self.date@,
            start_time: opt_view(self.start_time),
            end_time: opt_view(self.end_time),
            href: opt_view(self.href),
            order_index: self.order_index,
        }
    }
}

/// The events of one employee for a week, or why they could not be loaded.
#[derive(Clone, Debug, PartialEq, Eq)]
pub struct EmployeeWeekEvents {
    pub employee_reference: String,
    pub events: Vec<CalendarCellEvent>,
    pub error: Option<String>,
}

/// A VEVENT as read from a CalDAV REPORT.
#[derive(Clone, Debug, Default, PartialEq, Eq)]
pub struct RawVEvent {
    pub uid: String,
    pub summary: String,
    pub description: String,
    /// `yyyy-MM-dd` start date.
    pub dtstart: String,
    /// Exclusive end date, for all-day events only.
    pub dtend: Option<CalendarDate>,
    pub start_time: Option<String>,
    pub end_time: Option<String>,
    pub href: String,
    /// ETag of the resource, empty when the server sent none.
    pub etag: String,
    /// The whole calendar-data text of the resource.
    pub raw_ical: String,
    /// The persisted position among the day's assignments.
    pub order_index: Option<u32>,
}

/// An event after classification, before its project is resolved.
#[derive(Clone, Debug, PartialEq, Eq)]
pub struct PendingEvent {
    pub uid: String,
    pub date: String,
    pub summary: String,
    /// The Daylite project reference; none for a bare event.
    pub project_ref: Option<String>,
    pub start_time: Option<String>,
    pub end_time: Option<String>,
    pub href: String,
    pub order_index: Option<u32>,
}

/// Outcome of moving an assignment to another employee's calendar.
#[derive(Clone, Debug, PartialEq, Eq)]
pub enum MoveAssignmentResult {
    Moved { new_href: String },
    /// The target was written but the source could not be deleted.
    SourceDeleteFailed { new_href: String, source_href: String },
}

/// Input of the create-assignment command.
#[derive(Clone, Debug, PartialEq, Eq)]
pub struct CreateAssignmentInput {
    pub employee_reference: String,
    pub date: String,
    pub project_ref: String,
    pub project_name: String,
}

/// Input of the update-assignment command.
#[derive(Clone, Debug, PartialEq, Eq)]
pub struct UpdateAssignmentInput {
    pub href: String,
    pub uid: String,
    pub date: String,
    pub project_ref: String,
    pub project_name: String,
    /// Position among the target day's assignments; none keeps the current one.
    pub order_index: Option<u32>,
    /// Set when the user deliberately unlocked a fixed appointment.
    pub override_protection: bool,
}

/// A pending event carries the given event's time, link and order fields.
pub open spec fn carries_times(p: PendingEvent, e: CalendarCellEvent) -> bool {
    &&& e.uid@ == p.uid@
    &&& e.date@ == p.date@
    &&& opt_view(e.start_time) == opt_view(p.start_time)
    &&& opt_view(e.end_time) == opt_view(p.end_time)
    &&& opt_view(e.href) == (if p.href@.len() == 0 { None } else { Some(p.href@) })
    &&& e.order_index == p.order_index
}

} // verus!

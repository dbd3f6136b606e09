//! Calendar events of the weekly planning grid: classification of raw CalDAV
//! events, project resolution, absences, ordering, slot allocation and the
//! rules that guard every write.

pub mod absences;
pub mod caldav;
pub mod classify;
pub mod ical;
pub mod order;
pub mod protection;
pub mod report;
pub mod resolve;
pub mod slots;
pub mod types;
pub mod week;

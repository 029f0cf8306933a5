//! The settings of the viewer and the events that change them.

use vstd::prelude::*;

verus! {

/// The settings of the viewer.
#[derive(Clone, Copy, PartialEq, Eq, Structural, Debug)]
pub struct RgisSettings {
    /// The EPSG code of the reference system in which layers are shown.
    pub target_crs_epsg_code: u16,
}

/// Asks for another reference system.
#[derive(Clone, Copy, PartialEq, Eq, Structural, Debug)]
pub struct ChangeCrsEvent {
    pub old_crs_epsg_code: u16,
    pub new_crs_epsg_code: u16,
}

/// Says that the reference system was changed.
#[derive(Clone, Copy, PartialEq, Eq, Structural, Debug)]
pub struct CrsChangedEvent {
    pub old_crs_epsg_code: u16,
    pub new_crs_epsg_code: u16,
}

/// Answers the change requests of one frame. Only the last one counts: the
/// settings take its code, and the answer reports it. Without a request
/// nothing changes and nothing is reported.
pub fn handle_crs_changed_events(events: &Vec<ChangeCrsEvent>, settings: &mut RgisSettings) -> (r:
    Option<CrsChangedEvent>)
    ensures
        events@.len() == 0 ==> r is None && *final(settings) == *old(settings),
        events@.len() > 0 ==> r == Some(
            CrsChangedEvent {
                old_crs_epsg_code: events@.last().old_crs_epsg_code,
                new_crs_epsg_code: events@.last().new_crs_epsg_code,
            },
        ) && final(settings).target_crs_epsg_code == events@.last().new_crs_epsg_code,
{
    if events.len() == 0 {
        return None;
    }
    let event = events[events.len() - 1];
    settings.target_crs_epsg_code = event.new_crs_epsg_code;
    Some(
        CrsChangedEvent {
            old_crs_epsg_code: event.old_crs_epsg_code,
            new_crs_epsg_code: event.new_crs_epsg_code,
        },
    )
}

} // verus!

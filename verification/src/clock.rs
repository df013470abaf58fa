//! The one clock reading a run makes: the stamp that names a dated
//! snapshot folder.

use vstd::prelude::*;

verus! {

/// Relies on chrono's `Local::now` and its strftime formatting to render
/// the machine's local time as a sortable `YYYYMMDD-HHMMSS` stamp. The
/// result depends on the clock and time zone, so nothing is promised of
/// it; callers state what holds whatever came back.
#[verifier::external_body]
pub(crate) fn local_timestamp() -> String {
    chrono::offset::Local::now().format("%Y%m%d-%H%M%S").to_string()
}

} // verus!

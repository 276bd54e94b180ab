use vstd::prelude::*;
use crate::listing::ScheduleError;

verus! {

/// Where the schedule is published.
pub const SCHEDULE_URL: &'static str = "https://apis.is/tv/ruv";

/// Whether an HTTP status code is a success (2xx).
pub open spec fn is_success(code: int) -> bool {
    200 <= code < 300
}

/// Accepts a response by its status code: anything but a success is a transport failure.
pub fn check_status(code: u16) -> (r: Result<(), ScheduleError>)
    ensures
        r is Ok <==> is_success(code as int),
        r matches Err(e) ==> e == ScheduleError::Transport,
{
    if 200 <= code && code < 300 {
        Ok(())
    } else {
        Err(ScheduleError::Transport)
    }
}

} // verus!

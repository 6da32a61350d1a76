//! One running instance at a time, so that two of them do not fight over the devices.

use crate::text::concat2;
use vstd::prelude::*;

verus! {

/// The system's last error after creating a named mutex that some process already holds.
pub const ERROR_ALREADY_EXISTS: u32 = 183;

/// What creating the mutex came to: the system's last error where it was created, else the
/// system's words. The instance may run only where no other one holds the mutex.
pub fn acquire(created: Result<u32, String>) -> (r: Result<(), String>)
    ensures
        match created {
            Err(words) => r matches Err(why) && why@ == "CreateMutexW: "@ + words@,
            Ok(last_error) => if last_error == ERROR_ALREADY_EXISTS {
                r matches Err(why) && why@ == "already running"@
            } else {
                r is Ok
            },
        },
{
    match created {
        Err(words) => Err(concat2("CreateMutexW: ", words.as_str())),
        Ok(last_error) => if last_error == ERROR_ALREADY_EXISTS {
            Err("already running".to_owned())
        } else {
            Ok(())
        },
    }
}

} // verus!

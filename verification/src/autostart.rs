//! Start-at-login, via the per-user `Run` key.
//!
//! The per-user key rather than the machine-wide one or a scheduled task: it needs no
//! elevation, it is trivially inspectable by the user, and uninstalling is deleting one value.

use crate::text::{concat2, concat3, decimal, decimal_text};
use crate::utf16::{bytes_of, encode, little_endian, wide};
use vstd::prelude::*;

verus! {

/// The status that registry calls return on success.
pub const ERROR_SUCCESS: u32 = 0;

/// Why start-at-login could not be changed, with the registry's status.
#[derive(Debug, Clone, Copy, PartialEq, Eq, Structural)]
pub enum AutostartError {
    OpenFailed(u32),
    WriteFailed(u32),
}

impl AutostartError {
    /// What the user reads.
    pub fn message(&self) -> (r: String)
        ensures
            r@ == (match *self {
                AutostartError::OpenFailed(status) => "opening the Run key failed: error "@
                    + decimal(status as nat),
                AutostartError::WriteFailed(status) => "writing the Run key failed: error "@
                    + decimal(status as nat),
            }),
    {
        match *self {
            AutostartError::OpenFailed(status) => concat2(
                "opening the Run key failed: error ",
                decimal_text(status as u64).as_str(),
            ),
            AutostartError::WriteFailed(status) => concat2(
                "writing the Run key failed: error ",
                decimal_text(status as u64).as_str(),
            ),
        }
    }
}

/// A path between double quotes.
pub open spec fn quoted(exe: Seq<char>) -> Seq<char> {
    seq!['"'] + exe + seq!['"']
}

/// The command Windows will run at login. Quoted, because `C:\Program Files\...` would
/// otherwise be parsed as several arguments.
pub fn command_string(exe: &str) -> (r: String)
    ensures
        r@ == quoted(exe@),
{
    proof {
        reveal_strlit("\"");
        assert("\""@ == seq!['"']);
    }
    concat3("\"", exe, "\"")
}

/// The value stored under the `Run` key for `exe`: the command as zero-terminated UTF-16, as
/// raw bytes.
pub fn run_value(exe: &str) -> (r: Vec<u8>)
    ensures
        r@ == little_endian(encode(quoted(exe@)).push(0)),
{
    bytes_of(&wide(command_string(exe).as_str()))
}

/// What opening the `Run` key came to.
pub fn open_run_key(status: u32) -> (r: Result<(), AutostartError>)
    ensures
        r == (if status == ERROR_SUCCESS {
            Ok::<(), AutostartError>(())
        } else {
            Err(AutostartError::OpenFailed(status))
        }),
{
    if status != ERROR_SUCCESS {
        return Err(AutostartError::OpenFailed(status));
    }
    Ok(())
}

/// What a look-up of the value, with this status, says of whether the program is registered.
/// There is no status where the key could not be opened.
pub open spec fn enabled_by(query: Option<u32>) -> bool {
    query == Some(ERROR_SUCCESS)
}

/// Is the program registered to start at login? `query` is the status of looking the value up,
/// or nothing where the key could not be opened. Only whether the value exists matters, not
/// what it holds: a stale path from a moved binary still means that the user asked for it.
pub fn is_enabled(query: Option<u32>) -> (r: bool)
    ensures
        r == enabled_by(query),
{
    match query {
        Some(status) => status == ERROR_SUCCESS,
        None => false,
    }
}

/// What registering or unregistering came to, by the status of the write or the delete and by
/// whether the value is there after it.
pub open spec fn set_outcome(enabled: bool, status: u32, registered: bool) -> Result<
    (),
    AutostartError,
> {
    if status == ERROR_SUCCESS || (!enabled && !registered) {
        Ok(())
    } else {
        Err(AutostartError::WriteFailed(status))
    }
}

/// What registering (`enabled`) or unregistering came to: `status` is that of the write or the
/// delete, `registered` whether the value is still there after it. Deleting something that was
/// never there is a success as far as the caller is concerned.
pub fn set(enabled: bool, status: u32, registered: bool) -> (r: Result<(), AutostartError>)
    ensures
        r == set_outcome(enabled, status, registered),
{
    let outcome: u32 = if !enabled && status != ERROR_SUCCESS && !registered {
        ERROR_SUCCESS
    } else {
        status
    };
    if outcome != ERROR_SUCCESS {
        return Err(AutostartError::WriteFailed(outcome));
    }
    Ok(())
}

/// The registry does what it reports: after a write that succeeded the value is there, after a
/// delete that succeeded it is not, and a look-up succeeds exactly where it is.
pub open spec fn registry_is_faithful(
    enabled: bool,
    status: u32,
    there: bool,
    query: Option<u32>,
) -> bool {
    &&& status == ERROR_SUCCESS ==> there == enabled
    &&& enabled_by(query) == there
}

/// Right after start-at-login was changed with success, asking for it gives what it was changed
/// to, on a registry that does what it reports.
pub proof fn law_what_was_set_is_found(enabled: bool, status: u32, there: bool, query: Option<u32>)
    requires
        registry_is_faithful(enabled, status, there, query),
        set_outcome(enabled, status, enabled_by(query)) is Ok,
    ensures
        enabled_by(query) == enabled,
{
}

/// Unregistering twice is no error: what is gone needs no deleting.
pub proof fn law_unregistering_twice_is_no_error(status: u32)
    ensures
        set_outcome(false, status, false) is Ok,
{
}

/// The command starts and ends with a quote, and holds the path untouched in between.
pub proof fn law_command_is_quoted(exe: Seq<char>)
    ensures
        quoted(exe).first() == '"',
        quoted(exe).last() == '"',
        quoted(exe).subrange(1, quoted(exe).len() - 1) == exe,
{
}

/// The command is the path and two quotes, and nothing else.
pub proof fn law_command_adds_two_quotes(exe: Seq<char>)
    ensures
        quoted(exe).len() == exe.len() + 2,
        forall|i: int| 0 <= i < exe.len() ==> #[trigger] exe[i] == quoted(exe)[i + 1],
        quoted(exe)[0] == '"' && quoted(exe).last() == '"',
{
}

/// The program counts as registered exactly where the value was found: by no status but that of
/// success, and not where the key could not be opened.
pub proof fn law_only_a_found_value_counts(status: u32)
    ensures
        enabled_by(Some(status)) <==> status == 0,
        !enabled_by(None),
{
}

/// A change fails exactly where its write or delete failed and what was asked for is not so: for
/// a registration any failure counts, for an unregistration only one that left the value there.
/// The status of the failure is what is reported.
pub proof fn law_change_fails_only_where_it_left_its_mark(status: u32, registered: bool)
    ensures
        set_outcome(true, status, registered) is Ok <==> status == 0,
        set_outcome(false, status, registered) is Ok <==> status == 0 || !registered,
        forall|enabled: bool|
            (#[trigger] set_outcome(enabled, status, registered)) matches Err(e) ==> e
                == AutostartError::WriteFailed(status),
{
}

} // verus!

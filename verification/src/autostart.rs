//! Starting with the system, by an entry among the user's startup programs.
//!
//! The entry names this program, quoted, with a flag behind it, so that the
//! program can come up out of the way.

use vstd::prelude::*;
use vstd::string::StringExecFns;

use crate::text::{decimal, decimal_text, owned, same_text};
use crate::utf16::{
    byte_units, encode_wide, has_zero, text_in_bytes, to_bytes, unit_bytes, until_zero, utf16_lossy,
    wide_text,
};

verus! {

/// Tells a program that it was started with the system.
pub const AUTOSTART_FLAG: &'static str = "--autostart";

/// The entry that starts a program.
pub open spec fn command_for(exe: Seq<char>) -> Seq<char> {
    "\""@ + exe + "\" "@ + AUTOSTART_FLAG@
}

/// The entry that should be there, if this program's path is known.
pub fn desired_command(exe: Option<&str>) -> (r: Option<String>)
    ensures
        r is Some <==> exe is Some,
        r is Some ==> r->0@ == command_for(exe->0@),
{
    match exe {
        Some(path) => Some(owned("\"").concat(path).concat("\" ").concat(AUTOSTART_FLAG)),
        None => None,
    }
}

/// A text in UTF-16 with a zero behind it.
pub fn to_utf16(s: &str) -> (out: Vec<u16>)
    ensures
        out@ == wide_text(s@),
{
    encode_wide(s)
}

/// An entry as it is written down.
pub fn entry_bytes(command: &str) -> (out: Vec<u8>)
    ensures
        out@ == unit_bytes(wide_text(command@)),
{
    let wide: Vec<u16> = to_utf16(command);
    to_bytes(wide.as_slice())
}

/// The entry that is there, if there is one; an empty one is none.
pub fn current_command(data: Option<Vec<u8>>) -> (r: Option<String>)
    ensures
        r is Some <==> data is Some && data->0@.len() > 0,
        r is Some ==> r->0@ == utf16_lossy(until_zero(byte_units(data->0@))),
{
    match data {
        Some(bytes) => if bytes.len() == 0 {
            None
        } else {
            Some(text_in_bytes(bytes.as_slice()))
        },
        None => None,
    }
}

/// Whether this program starts with the system.
pub fn is_enabled(current: &Option<String>) -> (yes: bool)
    ensures
        yes == (current is Some),
{
    current.is_some()
}

/// What must happen to the entry.
#[derive(Debug, Clone, Copy, PartialEq, Eq, Structural)]
pub enum EntryChange {
    Keep,
    Write,
    Remove,
}

/// What makes an entry fit the setting. One that names another place than this
/// program's is out of date.
pub open spec fn change_for(
    wanted: bool,
    current: Option<Seq<char>>,
    desired: Option<Seq<char>>,
) -> EntryChange {
    if wanted {
        if current is Some && current == desired {
            EntryChange::Keep
        } else {
            EntryChange::Write
        }
    } else if current is Some {
        EntryChange::Remove
    } else {
        EntryChange::Keep
    }
}

/// What makes the entry fit the setting.
pub fn reconcile(wanted: bool, current: &Option<String>, desired: &Option<String>) -> (
    change: EntryChange)
    ensures
        change == change_for(
            wanted,
            crate::signaling::text_of(*current),
            crate::signaling::text_of(*desired),
        ),
{
    match (wanted, current) {
        (true, Some(existing)) => {
            let same: bool = match desired {
                Some(d) => same_text(existing.as_str(), d.as_str()),
                None => false,
            };
            if same {
                EntryChange::Keep
            } else {
                EntryChange::Write
            }
        },
        (true, None) => EntryChange::Write,
        (false, Some(_)) => EntryChange::Remove,
        (false, None) => EntryChange::Keep,
    }
}

/// The system's codes for success and for a missing entry.
pub const ERROR_SUCCESS: u32 = 0;
pub const ERROR_FILE_NOT_FOUND: u32 = 2;

/// What the user is told when an entry could not be changed.
pub open spec fn change_error(on: bool, has_path: bool, opened: bool, code: u32) -> Option<
    Seq<char>,
> {
    if on && !has_path {
        Some("cannot determine this program's path"@)
    } else if !opened {
        Some("cannot open the Run registry key"@)
    } else if on && code != ERROR_SUCCESS {
        Some("could not write the startup entry (error "@ + decimal(code as nat) + ")"@)
    } else if !on && code != ERROR_SUCCESS && code != ERROR_FILE_NOT_FOUND {
        Some("could not remove the startup entry (error "@ + decimal(code as nat) + ")"@)
    } else {
        None
    }
}

/// What came of writing or removing the entry: whether the program's path was
/// known, whether the key could be opened, and the system's code. Removing
/// what is not there is no error.
pub fn set_enabled(on: bool, has_path: bool, opened: bool, code: u32) -> (r: Result<(), String>)
    ensures
        r is Err <==> change_error(on, has_path, opened, code) is Some,
        r is Err ==> r->Err_0@ == change_error(on, has_path, opened, code)->0,
{
    if on && !has_path {
        return Err(owned("cannot determine this program's path"));
    }
    if !opened {
        return Err(owned("cannot open the Run registry key"));
    }
    if code == ERROR_SUCCESS || (!on && code == ERROR_FILE_NOT_FOUND) {
        return Ok(());
    }
    let number: String = decimal_text(code as u64);
    if on {
        Err(
            owned("could not write the startup entry (error ").concat(number.as_str()).concat(
                ")",
            ),
        )
    } else {
        Err(
            owned("could not remove the startup entry (error ").concat(number.as_str()).concat(
                ")",
            ),
        )
    }
}

/// An entry that was written is read back as it was, and then fits: a second
/// look changes nothing.
pub proof fn law_written_entry_fits(exe: Seq<char>)
    requires
        !has_zero(exe),
    ensures
        ({
            let read = utf16_lossy(
                until_zero(byte_units(unit_bytes(wide_text(command_for(exe))))),
            );
            &&& read == command_for(exe)
            &&& change_for(true, Some(read), Some(command_for(exe))) == EntryChange::Keep
        }),
{
    let cmd = command_for(exe);
    reveal_strlit("\"");
    reveal_strlit("\" ");
    reveal_strlit("--autostart");
    let a = "\""@;
    let b = "\" "@;
    let f = AUTOSTART_FLAG@;
    assert(a.len() == 1 && a[0] == '"');
    assert(b.len() == 2 && b[0] == '"' && b[1] == ' ');
    assert(f.len() == 11);
    assert(f[0] == '-' && f[1] == '-' && f[2] == 'a' && f[3] == 'u' && f[4] == 't' && f[5] == 'o'
        && f[6] == 's' && f[7] == 't' && f[8] == 'a' && f[9] == 'r' && f[10] == 't');
    assert forall|i: int| 0 <= i < cmd.len() implies (#[trigger] cmd[i]) as u32 != 0 by {
        if i < 1 {
            assert(cmd[i] == a[i]);
        } else if i < 1 + exe.len() {
            assert(cmd[i] == exe[i - 1]);
        } else if i < 3 + exe.len() {
            assert(cmd[i] == b[i - 1 - exe.len()]);
        } else {
            assert(cmd[i] == f[i - 3 - exe.len()]);
        }
    }
    crate::utf16::law_wide_text_reads_back(cmd);
}

/// An entry is the program in quotes, a space and "--autostart".
pub proof fn law_entries_name_the_program(exe: Seq<char>)
    ensures
        command_for(exe) == seq!['"'] + exe + seq![
            '"',
            ' ',
            '-',
            '-',
            'a',
            'u',
            't',
            'o',
            's',
            't',
            'a',
            'r',
            't',
        ],
{
    reveal_strlit("\"");
    reveal_strlit("\" ");
    reveal_strlit("--autostart");
    assert(command_for(exe) =~= seq!['"'] + exe + seq![
        '"',
        ' ',
        '-',
        '-',
        'a',
        'u',
        't',
        'o',
        's',
        't',
        'a',
        'r',
        't',
    ]);
}

/// Where the program is to start with the system, an entry is written unless
/// the one that is there is right already; where it is not to, whatever entry
/// is there is removed.
pub proof fn law_entries_follow_the_setting(
    there: Seq<char>,
    right: Seq<char>,
    unknown: Option<Seq<char>>,
)
    ensures
        change_for(true, Some(there), Some(right)) == (if there == right {
            EntryChange::Keep
        } else {
            EntryChange::Write
        }),
        change_for(true, Some(there), None) == EntryChange::Write,
        change_for(true, None, unknown) == EntryChange::Write,
        change_for(false, Some(there), unknown) == EntryChange::Remove,
        change_for(false, None, unknown) == EntryChange::Keep,
{
}

/// A change succeeds exactly if the key could be opened and the system says 0,
/// or, for a removal, that there was nothing, which is 2; to write an entry the
/// program's path must be known too. Otherwise the user is told which of these
/// failed, and the system's number where it gave one.
pub proof fn law_failed_changes_are_told(has_path: bool, opened: bool, code: u32)
    ensures
        change_error(true, has_path, opened, code) is None <==> has_path && opened && code == 0,
        change_error(false, has_path, opened, code) is None <==> opened && (code == 0 || code == 2),
        !has_path ==> change_error(true, has_path, opened, code) == Some(
            "cannot determine this program's path"@,
        ),
        has_path && !opened ==> change_error(true, has_path, opened, code) == Some(
            "cannot open the Run registry key"@,
        ),
        !opened ==> change_error(false, has_path, opened, code) == Some(
            "cannot open the Run registry key"@,
        ),
        has_path && opened && code != 0 ==> change_error(true, has_path, opened, code) == Some(
            "could not write the startup entry (error "@ + decimal(code as nat) + ")"@,
        ),
        opened && code != 0 && code != 2 ==> change_error(false, has_path, opened, code) == Some(
            "could not remove the startup entry (error "@ + decimal(code as nat) + ")"@,
        ),
{
}

} // verus!

//! Reaching the desktops and sessions that a plain program does not: which
//! desktop has the input, in which session the program must run, and the
//! service that sees to it.

use vstd::prelude::*;
use vstd::string::StringExecFns;

use crate::text::{owned, same_text};
use crate::utf16::{encode_wide, wide_text};

verus! {

pub const SERVICE_NAME: &'static str = "ShareCtrlScreenHost";
pub const DISPLAY_NAME: &'static str = "ShareCtrlScreen Host Service";

/// How often the active session is looked at.
pub const SESSION_POLL_MS: u64 = 2_000;

/// A text in UTF-16 with a zero behind it.
pub fn wide(s: &str) -> (out: Vec<u16>)
    ensures
        out@ == wide_text(s@),
{
    encode_wide(s)
}

/// The name of the service in UTF-16 with a zero behind it.
pub fn elevation_service_name_wide() -> (out: Vec<u16>)
    ensures
        out@ == wide_text(SERVICE_NAME@),
        out@ == wide_text("ShareCtrlScreenHost"@),
{
    wide(SERVICE_NAME)
}

/// A command: a quoted program and what it is told.
pub open spec fn command_text(exe: Seq<char>, args: Seq<char>) -> Seq<char> {
    "\""@ + exe + "\" "@ + args
}

/// A command: a quoted program and what it is told.
pub fn command_line(exe: &str, args: &str) -> (out: String)
    ensures
        out@ == command_text(exe@, args@),
{
    owned("\"").concat(exe).concat("\" ").concat(args)
}

/// The command that the service is registered with.
pub fn service_command(exe: &str) -> (out: String)
    ensures
        out@ == command_text(exe@, "--run-service"@),
{
    command_line(exe, "--run-service")
}

/// The session at the console, from what the system says: the largest number
/// means that there is none.
pub fn active_console_session(id: u32) -> (r: Option<u32>)
    ensures
        r == (if id == 0xFFFF_FFFF {
            None
        } else {
            Some(id)
        }),
        r == console_session(id),
{
    if id == 0xFFFF_FFFF {
        None
    } else {
        Some(id)
    }
}

/// Keeps the program running in the session at the console.
#[derive(Debug, Clone, Copy, PartialEq, Eq, Structural)]
pub struct SessionWatch {
    /// The session that the program was started in.
    pub last: Option<u32>,
}

impl SessionWatch {
    pub fn new() -> (w: Self)
        ensures
            w.last is None,
    {
        SessionWatch { last: None }
    }

    /// The session at the console is this. Gives the session to start the
    /// program in, if it is not running there. Once nobody is logged in, it is
    /// started anew at the next login.
    pub fn on_poll(&mut self, session: Option<u32>) -> (r: Option<u32>)
        ensures
            r == (if session == old(self).last {
                None
            } else {
                session
            }),
            final(self).last == (if session is None {
                None
            } else {
                old(self).last
            }),
            (final(self).last, r) == polled(old(self).last, session),
    {
        match session {
            Some(s) => match self.last {
                Some(l) => if l == s {
                    None
                } else {
                    Some(s)
                },
                None => Some(s),
            },
            None => {
                self.last = None;
                None
            },
        }
    }

    /// The program was started in a session.
    pub fn launched(&mut self, session: u32)
        ensures
            final(self).last == Some(session),
    {
        self.last = Some(session);
    }
}

/// What the service program is told to do.
#[derive(Debug, Clone, Copy, PartialEq, Eq, Structural)]
pub enum ServiceCommand {
    Install,
    Uninstall,
    Run,
    /// Say how it is used.
    Usage,
}

/// The command that an argument stands for.
pub open spec fn command_of(arg: Seq<char>) -> ServiceCommand {
    if arg == "--install-service"@ {
        ServiceCommand::Install
    } else if arg == "--uninstall-service"@ {
        ServiceCommand::Uninstall
    } else if arg == "--run-service"@ {
        ServiceCommand::Run
    } else {
        ServiceCommand::Usage
    }
}

impl ServiceCommand {
    /// The command that an argument stands for.
    pub fn parse(arg: &str) -> (c: ServiceCommand)
        ensures
            c == command_of(arg@),
    {
        if same_text(arg, "--install-service") {
            ServiceCommand::Install
        } else if same_text(arg, "--uninstall-service") {
            ServiceCommand::Uninstall
        } else if same_text(arg, "--run-service") {
            ServiceCommand::Run
        } else {
            ServiceCommand::Usage
        }
    }
}

/// The desktop that a thread is attached to.
#[verifier::ext_equal]
pub ghost struct Attached {
    pub name: Seq<char>,
    pub handle: Option<isize>,
}

/// Follows the desktop that has the input.
#[derive(Debug)]
pub struct InputDesktopFollower {
    current_name: String,
    current: Option<isize>,
}

impl View for InputDesktopFollower {
    type V = Attached;

    closed spec fn view(&self) -> Attached {
        Attached { name: self.current_name@, handle: self.current }
    }
}

impl InputDesktopFollower {
    /// Attached to nothing.
    pub fn new() -> (f: Self)
        ensures
            f@ == (Attached { name: seq![], handle: None }),
    {
        let f = InputDesktopFollower { current_name: String::new(), current: None };
        assert(f@.name =~= seq![]);
        f
    }

    /// Whether the thread must be attached to the desktop of this name, which
    /// has the input now. If not, its handle is closed again.
    pub fn must_switch(&self, name: &str) -> (yes: bool)
        ensures
            yes == (self@.handle is None || self@.name != name@),
            yes == !is_on(self@, name@),
    {
        self.current.is_none() || !same_text(name, self.current_name.as_str())
    }

    /// The thread is attached to a desktop. Gives the handle of the one before,
    /// which is to be closed.
    pub fn switched(&mut self, handle: isize, name: String) -> (previous: Option<isize>)
        ensures
            previous == old(self)@.handle,
            final(self)@ == (Attached { name: name@, handle: Some(handle) }),
    {
        let previous: Option<isize> = self.current;
        self.current = Some(handle);
        self.current_name = name;
        previous
    }

    /// The name of the desktop.
    pub fn current(&self) -> (name: &str)
        ensures
            name@ == self@.name,
    {
        self.current_name.as_str()
    }
}

/// A command is the program in quotes, a space, and what the program is told.
pub proof fn law_commands_name_the_program(exe: Seq<char>, args: Seq<char>)
    ensures
        command_text(exe, args) == seq!['"'] + exe + seq!['"', ' '] + args,
{
    reveal_strlit("\"");
    reveal_strlit("\" ");
    assert("\""@ =~= seq!['"']);
    assert("\" "@ =~= seq!['"', ' ']);
}

proof fn lemma_service_words()
    ensures
        "--install-service"@ == seq!['-', '-'] + seq!['i', 'n', 's', 't', 'a', 'l', 'l'] + seq![
            '-',
            's',
            'e',
            'r',
            'v',
            'i',
            'c',
            'e',
        ],
        "--uninstall-service"@ == seq!['-', '-'] + seq![
            'u',
            'n',
            'i',
            'n',
            's',
            't',
            'a',
            'l',
            'l',
        ] + seq!['-', 's', 'e', 'r', 'v', 'i', 'c', 'e'],
        "--run-service"@ == seq!['-', '-'] + seq!['r', 'u', 'n'] + seq![
            '-',
            's',
            'e',
            'r',
            'v',
            'i',
            'c',
            'e',
        ],
{
    reveal_strlit("--install-service");
    reveal_strlit("--uninstall-service");
    reveal_strlit("--run-service");
    let tail = seq!['-', 's', 'e', 'r', 'v', 'i', 'c', 'e'];
    assert("--install-service"@ =~= seq!['-', '-'] + seq!['i', 'n', 's', 't', 'a', 'l', 'l']
        + tail);
    assert("--uninstall-service"@ =~= seq!['-', '-'] + seq![
        'u',
        'n',
        'i',
        'n',
        's',
        't',
        'a',
        'l',
        'l',
    ] + tail);
    assert("--run-service"@ =~= seq!['-', '-'] + seq!['r', 'u', 'n'] + tail);
}

/// The service program installs, removes or runs the service when it is told
/// exactly so, and says how it is used when it is told anything else.
pub proof fn law_service_does_as_told(arg: Seq<char>)
    ensures
        ({
            let tail = seq!['-', 's', 'e', 'r', 'v', 'i', 'c', 'e'];
            let install = seq!['i', 'n', 's', 't', 'a', 'l', 'l'];
            let uninstall = seq!['u', 'n', 'i', 'n', 's', 't', 'a', 'l', 'l'];
            let run = seq!['r', 'u', 'n'];
            let head = seq!['-', '-'];
            &&& command_of(arg) == ServiceCommand::Install <==> arg == head + install + tail
            &&& command_of(arg) == ServiceCommand::Uninstall <==> arg == head + uninstall + tail
            &&& command_of(arg) == ServiceCommand::Run <==> arg == head + run + tail
        }),
{
    lemma_service_words();
    let tail = seq!['-', 's', 'e', 'r', 'v', 'i', 'c', 'e'];
    assert((seq!['-', '-'] + seq!['i', 'n', 's', 't', 'a', 'l', 'l'] + tail).len() == 17);
    assert((seq!['-', '-'] + seq!['u', 'n', 'i', 'n', 's', 't', 'a', 'l', 'l'] + tail).len()
        == 19);
    assert((seq!['-', '-'] + seq!['r', 'u', 'n'] + tail).len() == 13);
}

/// The session at the console, from the system's number for it.
pub open spec fn console_session(id: u32) -> Option<u32> {
    if id < u32::MAX {
        Some(id)
    } else {
        None
    }
}

/// The session that the program runs in and the one to start it in, once the
/// session at the console has been looked at.
pub open spec fn polled(last: Option<u32>, session: Option<u32>) -> (Option<u32>, Option<u32>) {
    match session {
        None => (None, None),
        Some(_) => (
            last,
            if session == last {
                None
            } else {
                session
            },
        ),
    }
}

/// Whether a thread is attached to the desktop of a name.
pub open spec fn is_on(a: Attached, name: Seq<char>) -> bool {
    a.handle is Some && a.name == name
}

/// The program is started in the session at the console unless it runs there
/// already; after a logout it is started anew, in the same session too.
pub proof fn law_program_follows_the_console(last: Option<u32>, session: u32)
    ensures
        polled(last, Some(session)).1 == (if last == Some(session) {
            None
        } else {
            Some(session)
        }),
        polled(last, Some(session)).0 == last,
        polled(last, None).1 is None,
        polled(polled(last, None).0, Some(session)).1 == Some(session),
        session != 0xFFFF_FFFF ==> console_session(session) == Some(session),
        console_session(0xFFFF_FFFF) is None,
{
}

/// A thread stays where it is exactly if that is the desktop with the input.
pub proof fn law_threads_follow_the_input(name: Seq<char>, other: Seq<char>, handle: isize)
    ensures
        is_on(Attached { name, handle: Some(handle) }, other) <==> name == other,
        !is_on(Attached { name, handle: None }, other),
{
}

/// The service goes by one name in the system and by another for the user, and
/// looks every two seconds where the program must run.
pub proof fn law_service_goes_by_these_names()
    ensures
        SERVICE_NAME@ == "ShareCtrlScreenHost"@,
        DISPLAY_NAME@ == "ShareCtrlScreen Host Service"@,
        SESSION_POLL_MS == 2 * 1000,
{
}

} // verus!

//! Carrying out what the menu asked for.

use crate::ipc::IpcError;
use crate::link::{call_failure, from_ipc};
use crate::model::{Action, Notice, TrayModel, TrayView};
use crate::text::{
    chars_of, from_utf8_lossy, line_list, lines, lossy_text, opt_text, same_text, text_of, texts,
    trim, trimmed,
};
use vstd::prelude::*;
use vstd::string::*;

verus! {

/// What to do about an action.
#[derive(Debug, Clone, PartialEq, Eq)]
pub enum Errand<S = String> {
    /// Ask the service to bring a mount up.
    Mount(S),
    /// Ask the service to take a mount down, forced or not.
    Unmount(S, bool),
    /// Note that the service is not reachable, about this mount.
    Unreachable(S),
    /// Hand a path to the file manager.
    Open(S),
    /// Tell systemd to do this to the service's unit.
    Unit(S),
    /// Read everything again.
    Refresh,
    /// Close the tray.
    Quit,
}

impl View for Errand {
    type V = Errand<Seq<char>>;

    open spec fn view(&self) -> Errand<Seq<char>> {
        match *self {
            Errand::Mount(n) => Errand::Mount(n@),
            Errand::Unmount(n, force) => Errand::Unmount(n@, force),
            Errand::Unreachable(n) => Errand::Unreachable(n@),
            Errand::Open(p) => Errand::Open(p@),
            Errand::Unit(v) => Errand::Unit(v@),
            Errand::Refresh => Errand::Refresh,
            Errand::Quit => Errand::Quit,
        }
    }
}

/// What to do about an action. Nothing is ever forced from the menu: that is a decision to
/// make deliberately at the command line.
pub open spec fn errand_of(a: Action<Seq<char>>, linked: bool) -> Errand<Seq<char>> {
    match a {
        Action::Mount(n) => if linked {
            Errand::Mount(n)
        } else {
            Errand::Unreachable(n)
        },
        Action::Unmount(n) => if linked {
            Errand::Unmount(n, false)
        } else {
            Errand::Unreachable(n)
        },
        Action::Open(p) => Errand::Open(p),
        Action::StartService => Errand::Unit("start"@),
        Action::StopService => Errand::Unit("stop"@),
        Action::Refresh => Errand::Refresh,
        Action::Quit => Errand::Quit,
    }
}

/// What to do about an action, given whether there is a link to the service.
pub fn carry_out(a: Action, linked: bool) -> (r: Errand)
    ensures
        r@ == errand_of(a@, linked),
{
    match a {
        Action::Mount(n) => if linked {
            Errand::Mount(n)
        } else {
            Errand::Unreachable(n)
        },
        Action::Unmount(n) => if linked {
            Errand::Unmount(n, false)
        } else {
            Errand::Unreachable(n)
        },
        Action::Open(p) => Errand::Open(p),
        Action::StartService => Errand::Unit("start".to_owned()),
        Action::StopService => Errand::Unit("stop".to_owned()),
        Action::Refresh => Errand::Refresh,
        Action::Quit => Errand::Quit,
    }
}

/// Nothing the menu offers forces an unmount.
pub proof fn the_menu_never_forces(a: Action<Seq<char>>, linked: bool)
    ensures
        errand_of(a, linked) matches Errand::Unmount(_, force) ==> !force,
{
}

/// Quitting the tray disconnects nothing: a mount is taken down only where the user asked
/// for that very mount, and the service's unit is acted on only where the user asked to
/// start or stop it.
pub proof fn nothing_is_disconnected_unasked(a: Action<Seq<char>>, linked: bool)
    ensures
        errand_of(Action::Quit, linked) == Errand::<Seq<char>>::Quit,
        errand_of(a, linked) matches Errand::Unmount(name, _) ==> a == Action::Unmount(name),
        errand_of(a, linked) matches Errand::Unit(verb) ==> {
            ||| a is StartService && verb == "start"@
            ||| a is StopService && verb == "stop"@
        },
{
}

/// A tray that notes that the service is not reachable.
pub fn unreachable_now(m: &mut TrayModel, name: &str)
    ensures
        final(m)@ == (TrayView {
            notice: Some(
                Notice { mount: Some(name@), text: "The service is not reachable"@ },
            ),
            ..old(m)@
        }),
{
    m.set_notice(Some(name.to_owned()), "The service is not reachable".to_owned());
}

/// What the tray notes of what the service answered about a mount. Success takes back what
/// was noted about that mount; a refusal is noted in the service's words.
pub open spec fn reported(v: TrayView, name: Seq<char>, r: Result<(), IpcError<Seq<char>>>) -> TrayView {
    match r {
        Ok(_) => TrayView {
            notice: if v.notes(name) {
                None
            } else {
                v.notice
            },
            ..v
        },
        Err(e) => TrayView {
            notice: Some(
                Notice { mount: Some(name), text: name + ": "@ + call_failure(e).sentence() },
            ),
            ..v
        },
    }
}

/// Note what the service answered about a mount.
pub fn report(m: &mut TrayModel, name: &str, r: Result<(), IpcError>)
    ensures
        final(m)@ == reported(
            old(m)@,
            name@,
            match r {
                Ok(_) => Ok(()),
                Err(e) => Err(e@),
            },
        ),
{
    match r {
        Ok(_) => {
            let about = match m.notice() {
                Some(n) => match &n.mount {
                    Some(mount) => same_text(mount.as_str(), name),
                    None => false,
                },
                None => false,
            };
            if about {
                m.clear_notice();
            }
        },
        Err(e) => {
            let mut s = name.to_owned();
            s.append(": ");
            s.append(from_ipc(e).message().as_str());
            m.set_notice(Some(name.to_owned()), s);
        },
    }
}

/// How a program ended: whether it succeeded, its exit status in words, and what it wrote to
/// its error output; or why it could not be run.
pub enum Ran<S = String, B = Vec<u8>> {
    Success,
    Failure { status: S, stderr: B },
    NotRun(S),
}

impl View for Ran {
    type V = Ran<Seq<char>, Seq<u8>>;

    open spec fn view(&self) -> Ran<Seq<char>, Seq<u8>> {
        match *self {
            Ran::Success => Ran::Success,
            Ran::Failure { status, stderr } => Ran::Failure { status: status@, stderr: stderr@ },
            Ran::NotRun(why) => Ran::NotRun(why@),
        }
    }
}

/// What is said of a path that could not be opened; nothing where it could.
pub open spec fn open_words(path: Seq<char>, ran: Ran<Seq<char>, Seq<u8>>) -> Option<Seq<char>> {
    match ran {
        Ran::Success => None,
        Ran::Failure { status, .. } => Some("xdg-open could not open "@ + path + ": "@ + status),
        Ran::NotRun(why) => Some("could not run xdg-open: "@ + why),
    }
}

/// What to say of a path handed to the file manager, if anything.
pub fn open_in_file_manager(path: &str, ran: Ran) -> (r: Option<String>)
    ensures
        opt_text(r) == open_words(path@, ran@),
{
    match ran {
        Ran::Success => None,
        Ran::Failure { status, stderr: _ } => {
            let mut s = "xdg-open could not open ".to_owned();
            s.append(path);
            s.append(": ");
            s.append(status.as_str());
            Some(s)
        },
        Ran::NotRun(why) => {
            let mut s = "could not run xdg-open: ".to_owned();
            s.append(why.as_str());
            Some(s)
        },
    }
}

/// The most characters quoted of what a program said.
pub const COMPLAINT_CAP: usize = 200;

/// The last line that says something, without the white space around it.
pub open spec fn last_said(rows: Seq<Seq<char>>) -> Option<Seq<char>>
    decreases rows.len(),
{
    if rows.len() == 0 {
        None
    } else if trimmed(rows.last()).len() > 0 {
        Some(trimmed(rows.last()))
    } else {
        last_said(rows.drop_last())
    }
}

/// A line cut to the cap, saying so where it was.
pub open spec fn capped_line(line: Seq<char>) -> Seq<char> {
    if line.len() > COMPLAINT_CAP {
        line.take(COMPLAINT_CAP as int) + " …"@
    } else {
        line
    }
}

/// The last thing in an error output, if there is anything.
pub open spec fn complaint_in(text: Seq<char>) -> Option<Seq<char>> {
    match last_said(line_list(text)) {
        Some(line) => Some(capped_line(line)),
        None => None,
    }
}

/// The last thing a text says, if it says anything. Capped, because it becomes a menu row.
pub fn last_words(text: &str) -> (r: Option<String>)
    ensures
        opt_text(r) == complaint_in(text@),
{
    let rows = lines(text);
    let ghost all = texts(rows@);
    let mut i: usize = rows.len();
    assert(all.take(i as int) == all);
    while i > 0
        invariant
            i <= rows@.len(),
            all == texts(rows@),
            all == line_list(text@),
            last_said(all) == last_said(all.take(i as int)),
        decreases i,
    {
        assert(all.take(i as int).drop_last() == all.take(i - 1));
        assert(all.take(i as int).last() == rows@[i - 1]@);
        let line = trim(rows[i - 1].as_str());
        if !line.as_str().is_empty() {
            let x = chars_of(line.as_str());
            if x.len() > COMPLAINT_CAP {
                let mut s = text_of(&x, 0, COMPLAINT_CAP);
                assert(s@ == line@.take(COMPLAINT_CAP as int));
                s.append(" …");
                return Some(s);
            }
            return Some(line);
        }
        i = i - 1;
    }
    None
}

/// The last thing a program said before failing, if it said anything.
pub fn complaint(stderr: &Vec<u8>) -> (r: Option<String>)
    ensures
        opt_text(r) == complaint_in(lossy_text(stderr@)),
{
    let text = from_utf8_lossy(stderr);
    last_words(text.as_str())
}

/// What is said of a unit that could not be started or stopped; nothing where it could. An
/// exit status says nothing, while systemd's own complaint says what to fix.
pub open spec fn unit_words(verb: Seq<char>, ran: Ran<Seq<char>, Seq<u8>>) -> Option<Seq<char>> {
    match ran {
        Ran::Success => None,
        Ran::Failure { status, stderr } => Some(
            "Could not "@ + verb + " the service: "@ + match complaint_in(lossy_text(stderr)) {
                Some(line) => line,
                None => "systemctl exited with "@ + status,
            },
        ),
        Ran::NotRun(why) => Some("could not run systemctl: "@ + why),
    }
}

/// What to say of an attempt to start or stop the service's unit, if anything.
pub fn unit(verb: &str, ran: Ran) -> (r: Option<String>)
    ensures
        opt_text(r) == unit_words(verb@, ran@),
{
    match ran {
        Ran::Success => None,
        Ran::Failure { status, stderr } => {
            let mut s = "Could not ".to_owned();
            s.append(verb);
            s.append(" the service: ");
            match complaint(&stderr) {
                Some(line) => {
                    s.append(line.as_str());
                },
                None => {
                    let mut t = "systemctl exited with ".to_owned();
                    t.append(status.as_str());
                    s.append(t.as_str());
                },
            }
            Some(s)
        },
        Ran::NotRun(why) => {
            let mut s = "could not run systemctl: ".to_owned();
            s.append(why.as_str());
            Some(s)
        },
    }
}

/// A program that will not stop talking does not become the whole menu: whatever it said,
/// what is quoted is one line of bounded length.
pub proof fn a_complaint_is_bounded(text: Seq<char>)
    ensures
        complaint_in(text) matches Some(line) ==> 0 < line.len() <= COMPLAINT_CAP + 2,
{
    reveal_strlit(" …");
    lemma_last_said_says_something(line_list(text));
}

proof fn lemma_last_said_says_something(rows: Seq<Seq<char>>)
    ensures
        last_said(rows) matches Some(line) ==> line.len() > 0,
    decreases rows.len(),
{
    if rows.len() > 0 {
        lemma_last_said_says_something(rows.drop_last());
    }
}

} // verus!

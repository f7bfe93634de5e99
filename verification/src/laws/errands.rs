//! What is done about what the user asked for, what is said of how it went, and how failures
//! of the link are told apart.

use crate::actions::{
    capped_line, complaint_in, errand_of, last_said, open_words, reported, unit_words, Errand, Ran,
};
use crate::errors::BusFailure;
use crate::ipc::IpcError;
use crate::laws::words::{lemma_row_stands, lemma_stands_between};
use crate::link::{
    call_failure, handshake_result, link_failure, longer, wait_after, LinkError, START_HINT,
};
use crate::model::{Action, TrayView};
use crate::sni::{summary_lines, tip_of, TRAY_TITLE};
use crate::text::{
    begins_with, digits, finishes_with, joined, line_list, lossy_text, occurs_at, occurs_in,
    trimmed,
};
use vstd::prelude::*;

verus! {

/// What is asked for is what is done: a mount is brought up or taken down over the link, and
/// told to be unreachable where there is none; everything else needs no link.
pub proof fn what_is_asked_for_is_done(n: Seq<char>, linked: bool)
    ensures
        errand_of(Action::Mount(n), true) == Errand::Mount(n),
        errand_of(Action::Unmount(n), true) == Errand::Unmount(n, false),
        errand_of(Action::Mount(n), false) == Errand::Unreachable(n),
        errand_of(Action::Unmount(n), false) == Errand::Unreachable(n),
        errand_of(Action::Open(n), linked) == Errand::Open(n),
        errand_of(Action::StartService, linked) == Errand::Unit("start"@),
        errand_of(Action::StopService, linked) == Errand::Unit("stop"@),
        errand_of(Action::Refresh, linked) is Refresh,
        errand_of(Action::Quit, linked) is Quit,
{
}

/// What the service answered about a mount is all that the tray notes: a refusal under the
/// mount's name and in the service's words, and success by taking back what was noted about
/// that mount, and about no other. Nothing else of the tray changes.
pub proof fn an_answer_is_noted(v: TrayView, name: Seq<char>, e: IpcError<Seq<char>>)
    ensures
        ({
            let well = reported(v, name, Ok(()));
            let ill = reported(v, name, Err(e));
            &&& well.link == v.link && well.mounts == v.mounts && well.transfers == v.transfers
            &&& ill.link == v.link && ill.mounts == v.mounts && ill.transfers == v.transfers
            &&& v.notes(name) ==> well.notice is None
            &&& !v.notes(name) ==> well.notice == v.notice
            &&& !well.notes(name)
            &&& ill.notes(name)
            &&& begins_with(ill.notice->0.text, name)
            &&& finishes_with(ill.notice->0.text, call_failure(e).sentence())
        }),
{
    let words = call_failure(e).sentence();
    let text = name + ": "@ + words;
    assert(text.subrange(0, name.len() as int) == name);
    assert(text.subrange(text.len() - words.len(), text.len() as int) == words);
}

/// A refusal stands in the service's own words, whatever its kind.
pub proof fn a_refusal_keeps_its_words(t: Seq<char>)
    ensures
        call_failure(IpcError::UnknownMount(t)).sentence() == t,
        call_failure(IpcError::NotManaged(t)).sentence() == t,
        call_failure(IpcError::Busy(t)).sentence() == t,
        call_failure(IpcError::Refused(Some(t))).sentence() == t,
        call_failure(IpcError::Busy(t)) is Refused,
        call_failure(IpcError::NotManaged(t)) is Refused,
        call_failure(IpcError::UnknownMount(t)) is Refused,
{
}

/// Nothing is said of what went well, and something of everything else: of a path that could
/// not be opened which it is and how that ended, and of a unit what was tried.
pub proof fn only_what_went_ill_is_said(
    path: Seq<char>,
    verb: Seq<char>,
    ran: Ran<Seq<char>, Seq<u8>>,
)
    ensures
        open_words(path, ran) is None <==> ran is Success,
        unit_words(verb, ran) is None <==> ran is Success,
        ran matches Ran::Failure { status, stderr } ==> {
            &&& occurs_in(path, open_words(path, ran)->0)
            &&& finishes_with(open_words(path, ran)->0, status)
            &&& occurs_in(verb, unit_words(verb, ran)->0)
            &&& complaint_in(lossy_text(stderr)) is None ==> finishes_with(
                unit_words(verb, ran)->0,
                status,
            )
            &&& complaint_in(lossy_text(stderr)) matches Some(line) ==> finishes_with(
                unit_words(verb, ran)->0,
                line,
            )
        },
        ran matches Ran::NotRun(why) ==> {
            &&& finishes_with(open_words(path, ran)->0, why)
            &&& finishes_with(unit_words(verb, ran)->0, why)
        },
{
    match ran {
        Ran::Success => {},
        Ran::Failure { status, stderr } => {
            lemma_told("xdg-open could not open "@, path, ": "@, status);
            match complaint_in(lossy_text(stderr)) {
                Some(line) => {
                    lemma_told("Could not "@, verb, " the service: "@, line);
                },
                None => {
                    let end = "systemctl exited with "@ + status;
                    lemma_told("Could not "@, verb, " the service: "@, end);
                    let text = unit_words(verb, ran)->0;
                    let n = text.len() as int;
                    let k = status.len();
                    assert(end.subrange(end.len() - k, end.len() as int) == status);
                    assert(text.subrange(n - end.len(), n) == end);
                    assert(text.subrange(n - k, n) == end.subrange(
                        end.len() - k,
                        end.len() as int,
                    ));
                },
            }
        },
        Ran::NotRun(why) => {
            let a = "could not run xdg-open: "@ + why;
            let b = "could not run systemctl: "@ + why;
            assert(a.subrange(a.len() - why.len(), a.len() as int) == why);
            assert(b.subrange(b.len() - why.len(), b.len() as int) == why);
        },
    }
}

proof fn lemma_told(head: Seq<char>, what: Seq<char>, glue: Seq<char>, end: Seq<char>)
    ensures
        occurs_in(what, head + what + glue + end),
        finishes_with(head + what + glue + end, end),
{
    let text = head + what + glue + end;
    let i = head.len() as int;
    assert(text.subrange(i, i + what.len()) == what);
    assert(occurs_at(what, text, i));
    assert(text.subrange(text.len() - end.len(), text.len() as int) == end);
}

/// What is quoted of an error output is its last line that says anything, from its beginning
/// on: every line behind it is blank.
pub proof fn the_last_words_are_quoted(text: Seq<char>)
    ensures
        ({
            let rows = line_list(text);
            &&& complaint_in(text) is None ==> forall|k: int|
                0 <= k < rows.len() ==> trimmed(#[trigger] rows[k]).len() == 0
            &&& complaint_in(text) matches Some(line) ==> exists|k: int|
                0 <= k < rows.len() && quoted_from(line, trimmed(#[trigger] rows[k])) && (forall|
                    j: int,
                |
                    k < j < rows.len() ==> trimmed(#[trigger] rows[j]).len() == 0)
        }),
{
    lemma_last_said(line_list(text));
    let rows = line_list(text);
    if let Some(said) = last_said(rows) {
        let k = choose|k: int|
            0 <= k < rows.len() && trimmed(#[trigger] rows[k]) == said && (forall|j: int|
                k < j < rows.len() ==> trimmed(#[trigger] rows[j]).len() == 0);
        let line = capped_line(said);
        reveal_strlit(" …");
        if said.len() > 200 {
            assert(" …"@.len() == 2);
            assert(line.len() == 202);
            assert(line.take(200) == said.take(200));
            assert(line.skip(200) == " …"@);
        }
        assert(quoted_from(line, trimmed(rows[k])));
    }
}

/// Whether a line quotes another: all of it, or its first two hundred characters and a sign
/// that there is more.
pub open spec fn quoted_from(line: Seq<char>, said: Seq<char>) -> bool {
    if said.len() <= 200 {
        line == said
    } else {
        line.len() == 202 && line.take(200) == said.take(200) && line.skip(200) == " …"@
    }
}

proof fn lemma_last_said(rows: Seq<Seq<char>>)
    ensures
        last_said(rows) is None ==> forall|k: int|
            0 <= k < rows.len() ==> trimmed(#[trigger] rows[k]).len() == 0,
        last_said(rows) matches Some(said) ==> said.len() > 0 && exists|k: int|
            0 <= k < rows.len() && trimmed(#[trigger] rows[k]) == said && (forall|j: int|
                k < j < rows.len() ==> trimmed(#[trigger] rows[j]).len() == 0),
    decreases rows.len(),
{
    if rows.len() > 0 {
        let rest = rows.drop_last();
        lemma_last_said(rest);
        if trimmed(rows.last()).len() > 0 {
            assert(trimmed(rows[rows.len() - 1]) == last_said(rows)->0);
        } else if last_said(rest) is Some {
            let said = last_said(rest)->0;
            let k = choose|k: int|
                0 <= k < rest.len() && trimmed(#[trigger] rest[k]) == said && (forall|j: int|
                    k < j < rest.len() ==> trimmed(#[trigger] rest[j]).len() == 0);
            assert(trimmed(rows[k]) == said);
            assert forall|j: int| k < j < rows.len() implies trimmed(#[trigger] rows[j]).len()
                == 0 by {
                if j < rest.len() {
                    assert(rest[j] == rows[j]);
                }
            }
        } else {
            assert forall|k: int| 0 <= k < rows.len() implies trimmed(#[trigger] rows[k]).len()
                == 0 by {
                if k < rest.len() {
                    assert(rest[k] == rows[k]);
                }
            }
        }
    }
}

/// The names with which the bus says that nobody answers, and those with which a service says
/// that it does not know what it is asked.
pub proof fn failures_of_a_call_are_told_apart(e: BusFailure<Seq<char>>, name: Seq<char>)
    ensures
        e.name is None ==> link_failure(e) == LinkError::Transport(e.text),
        e.name == Some(name) && (name == "org.freedesktop.DBus.Error.ServiceUnknown"@ || name
            == "org.freedesktop.DBus.Error.NameHasNoOwner"@) <==> e.name == Some(name)
            && link_failure(e) is NotRunning,
        e.name == Some("org.freedesktop.DBus.Error.UnknownInterface"@) ==> link_failure(e)
            is Incompatible,
        e.name == Some("org.freedesktop.DBus.Error.UnknownObject"@) ==> link_failure(e)
            is Incompatible,
        e.name == Some("org.freedesktop.DBus.Error.UnknownMethod"@) ==> link_failure(e)
            is Incompatible,
        e.name == Some("org.freedesktop.DBus.Error.UnknownProperty"@) ==> link_failure(e)
            is Incompatible,
        link_failure(e) matches LinkError::Transport(t) ==> t == e.text,
        !(link_failure(e) is Refused),
        call_failure(IpcError::ZBus(e)) == link_failure(e),
{
    reveal_strlit("org.freedesktop.DBus.Error.ServiceUnknown");
    reveal_strlit("org.freedesktop.DBus.Error.NameHasNoOwner");
    reveal_strlit("org.freedesktop.DBus.Error.UnknownInterface");
    reveal_strlit("org.freedesktop.DBus.Error.UnknownObject");
    reveal_strlit("org.freedesktop.DBus.Error.UnknownMethod");
    reveal_strlit("org.freedesktop.DBus.Error.UnknownProperty");
    assert("org.freedesktop.DBus.Error.ServiceUnknown"@[27] == 'S');
    assert("org.freedesktop.DBus.Error.NameHasNoOwner"@[27] == 'N');
    assert("org.freedesktop.DBus.Error.UnknownInterface"@[27] == 'U');
    assert("org.freedesktop.DBus.Error.UnknownObject"@[27] == 'U');
    assert("org.freedesktop.DBus.Error.UnknownMethod"@[27] == 'U');
    assert("org.freedesktop.DBus.Error.UnknownProperty"@[27] == 'U');
}

/// A service of any version but none can be talked to, and the refusal gives both versions.
pub proof fn only_a_service_too_old_is_refused(version: u32)
    ensures
        handshake_result(version) is Ok <==> version >= 1,
        handshake_result(version) matches Err(e) ==> e is TooOld && e->needed == 1 && e->found
            == version,
{
}

/// A failure of the link says what it was in words: how to start a service that does not run,
/// which versions do not fit, and what the bus said.
pub proof fn a_failure_says_what_it_was(e: LinkError<Seq<char>>)
    ensures
        e is NotRunning ==> occurs_in(START_HINT@, e.sentence()),
        e matches LinkError::NoSessionBus(t) ==> occurs_in(t, e.sentence()),
        e matches LinkError::Transport(t) ==> finishes_with(e.sentence(), t),
        e matches LinkError::TooOld { needed, found } ==> occurs_in(
            digits(needed as nat) + ", but the service provides "@ + digits(found as nat),
            e.sentence(),
        ),
{
    match e {
        LinkError::NotRunning => {
            lemma_stands_between(
                "The rclone-vfsmount-tray service is not running. Start it with:\n    "@,
                START_HINT@,
                "\nThis says nothing about your mounts: any that were up are still up."@,
            );
        },
        LinkError::NoSessionBus(t) => {
            lemma_stands_between(
                "No session bus to reach ("@,
                t,
                "). This runs inside a desktop session; over SSH, point DBUS_SESSION_BUS_ADDRESS at the user bus."@,
            );
        },
        LinkError::Transport(t) => {
            let s = e.sentence();
            assert(s.subrange(s.len() - t.len(), s.len() as int) == t);
        },
        LinkError::TooOld { needed, found } => {
            lemma_row_stands(
                "This command needs interface version "@,
                digits(needed as nat),
                ", but the service provides "@,
                digits(found as nat),
                ". Update rclone-vfsmount-trayd."@,
            );
        },
        _ => {},
    }
}

/// Each wait is twice the one before, from one second up to a minute.
pub proof fn the_wait_doubles(n: nat, secs: u64)
    ensures
        wait_after(0) == 1,
        2 * wait_after(n) <= 60 ==> wait_after(n + 1) == 2 * wait_after(n),
        2 * wait_after(n) > 60 ==> wait_after(n + 1) == 60,
        secs <= 30 ==> longer(secs) == 2 * secs,
        30 <= secs <= 60 ==> longer(secs) == 60,
{
}

/// What is shown without opening anything: the icon and the words of the state, and with the
/// link up every line that sums the mounts up, in their order.
pub proof fn the_tooltip_sums_up(v: TrayView)
    ensures
        tip_of(v).icon_name == v.icon_state().icon(),
        finishes_with(tip_of(v).title, v.icon_state().words()),
        begins_with(tip_of(v).title, TRAY_TITLE@),
        v.link is Up ==> {
            let s = v.sum();
            &&& begins_with(tip_of(v).description, s.mounted_text())
            &&& s.pending_words() matches Some(t) ==> occurs_in(t, tip_of(v).description)
            &&& s.rate_words() matches Some(t) ==> finishes_with(tip_of(v).description, t)
        },
{
    let words = v.icon_state().words();
    let title = tip_of(v).title;
    assert(title.subrange(title.len() - words.len(), title.len() as int) == words);
    assert(title.subrange(0, TRAY_TITLE@.len() as int) == TRAY_TITLE@);
    if v.link is Up {
        let s = v.sum();
        let all = summary_lines(s);
        let sep = "\n"@;
        let first = s.mounted_text();
        let tip = joined(all, sep);
        assert(tip_of(v).description == tip);
        let rest = all.drop_last();
        if all.len() == 1 {
            assert(tip == first);
            assert(tip.subrange(0, first.len() as int) == first);
        } else if all.len() == 2 {
            assert(rest.len() == 1 && rest[0] == first);
            assert(joined(rest, sep) == first);
            assert(tip == first + sep + all[1]);
            lemma_lines(first, sep, all[1]);
        } else {
            let two = rest.drop_last();
            assert(two.len() == 1 && two[0] == first);
            assert(joined(two, sep) == first);
            assert(rest.last() == all[1]);
            assert(joined(rest, sep) == first + sep + all[1]);
            assert(tip == first + sep + all[1] + sep + all[2]);
            lemma_three_lines(first, sep, all[1], all[2]);
        }
    }
}

proof fn lemma_lines(a: Seq<char>, sep: Seq<char>, b: Seq<char>)
    ensures
        begins_with(a + sep + b, a),
        occurs_in(b, a + sep + b),
        finishes_with(a + sep + b, b),
{
    let all = a + sep + b;
    assert(all.subrange(0, a.len() as int) == a);
    let i = (a + sep).len() as int;
    assert(all.subrange(i, i + b.len()) == b);
    assert(occurs_at(b, all, i));
    assert(all.subrange(all.len() - b.len(), all.len() as int) == b);
}

proof fn lemma_three_lines(a: Seq<char>, sep: Seq<char>, b: Seq<char>, c: Seq<char>)
    ensures
        begins_with(a + sep + b + sep + c, a),
        occurs_in(b, a + sep + b + sep + c),
        finishes_with(a + sep + b + sep + c, c),
{
    let all = a + sep + b + sep + c;
    assert(all.subrange(0, a.len() as int) == a);
    let i = (a + sep).len() as int;
    assert(all.subrange(i, i + b.len()) == b);
    assert(occurs_at(b, all, i));
    assert(all.subrange(all.len() - c.len(), all.len() as int) == c);
}

} // verus!

//! A unit's own words, taken out of its journal.

use crate::json::{
    as_u64, contents, field, field_of, json_content, json_document, node, parse_json, Json, Node,
};
use crate::text::{
    from_utf8_lossy, join, joined, line_list, lines, lossy_text, same_text, texts, trim, trimmed, views,
};
use vstd::prelude::*;
use vstd::string::*;

verus! {

/// The `MESSAGE` field of a journal entry. Output that is not UTF-8 arrives as a list of
/// its bytes, of which an item that is no number is `None`.
#[derive(Debug, Clone, PartialEq, Eq)]
pub enum Message<S = String, L = Vec<Option<u64>>> {
    Text(S),
    Bytes(L),
    /// Absent, or neither of the two.
    Missing,
}

impl View for Message {
    type V = Message<Seq<char>, Seq<Option<u64>>>;

    open spec fn view(&self) -> Message<Seq<char>, Seq<Option<u64>>> {
        match *self {
            Message::Text(t) => Message::Text(t@),
            Message::Bytes(b) => Message::Bytes(b@),
            Message::Missing => Message::Missing,
        }
    }
}

/// One journal entry that says something.
#[derive(Debug, Clone, PartialEq, Eq)]
pub struct Entry<S = String> {
    /// Whether systemd logged it about the unit, rather than the unit itself.
    pub from_systemd: bool,
    pub text: S,
}

impl View for Entry {
    type V = Entry<Seq<char>>;

    open spec fn view(&self) -> Entry<Seq<char>> {
        Entry { from_systemd: self.from_systemd, text: self.text@ }
    }
}

/// The bytes that a list of numbers stands for: each number's low byte, without the items
/// that are none.
pub open spec fn low_bytes(items: Seq<Option<u64>>) -> Seq<u8>
    decreases items.len(),
{
    if items.len() == 0 {
        Seq::<u8>::empty()
    } else {
        match items.last() {
            Some(n) => low_bytes(items.drop_last()).push((n % 256) as u8),
            None => low_bytes(items.drop_last()),
        }
    }
}

/// What a `MESSAGE` field says, if it says anything readable.
pub open spec fn message_text(m: Message<Seq<char>, Seq<Option<u64>>>) -> Option<Seq<char>> {
    match m {
        Message::Text(t) => Some(t),
        Message::Bytes(items) => Some(lossy_text(low_bytes(items))),
        Message::Missing => None,
    }
}

/// The entry made of a `MESSAGE` and the name of the process that logged it. A message
/// with nothing but white space makes none: rclone ends its fatal messages with a newline,
/// which the journal keeps as an entry of its own.
pub open spec fn entry_of(
    message: Message<Seq<char>, Seq<Option<u64>>>,
    comm: Option<Seq<char>>,
) -> Option<Entry<Seq<char>>> {
    match message_text(message) {
        Some(text) => if trimmed(text).len() == 0 {
            None
        } else {
            Some(Entry { from_systemd: comm == Some("systemd"@), text })
        },
        None => None,
    }
}

/// The number that a JSON value is, if it is one that a `u64` holds.
pub open spec fn number_of(content: Json) -> Option<u64> {
    match content {
        Json::Whole(n) => Some(n),
        _ => None,
    }
}

/// The `MESSAGE` field of a parsed journal line.
pub open spec fn message_of(content: Json) -> Message<Seq<char>, Seq<Option<u64>>> {
    match field_of(content, "MESSAGE"@) {
        Some(Json::Text(t)) => Message::Text(t),
        Some(Json::List(items)) => Message::Bytes(items.map_values(|i: Json| number_of(i))),
        _ => Message::Missing,
    }
}

/// The name of the process that logged a parsed journal line, if it is a text.
pub open spec fn comm_of(content: Json) -> Option<Seq<char>> {
    match field_of(content, "_COMM"@) {
        Some(Json::Text(t)) => Some(t),
        _ => None,
    }
}

/// The entry of one journal line, if it is JSON and says something.
pub open spec fn line_entry(line: Seq<char>) -> Option<Entry<Seq<char>>> {
    match json_document(line) {
        Some(content) => entry_of(message_of(content), comm_of(content)),
        None => None,
    }
}

/// The entries of journal lines, in their order.
pub open spec fn journal_entries(lines: Seq<Seq<char>>) -> Seq<Entry<Seq<char>>>
    decreases lines.len(),
{
    if lines.len() == 0 {
        Seq::<Entry<Seq<char>>>::empty()
    } else {
        match line_entry(lines.last()) {
            Some(e) => journal_entries(lines.drop_last()).push(e),
            None => journal_entries(lines.drop_last()),
        }
    }
}

/// The texts of the entries that the unit itself logged.
pub open spec fn own_words(entries: Seq<Entry<Seq<char>>>) -> Seq<Seq<char>>
    decreases entries.len(),
{
    if entries.len() == 0 {
        Seq::<Seq<char>>::empty()
    } else if entries.last().from_systemd {
        own_words(entries.drop_last())
    } else {
        own_words(entries.drop_last()).push(entries.last().text)
    }
}

/// The texts to show: the unit's own, or everything when it said nothing itself.
pub open spec fn shown_words(entries: Seq<Entry<Seq<char>>>) -> Seq<Seq<char>> {
    if own_words(entries).len() == 0 {
        entries.map_values(|e: Entry<Seq<char>>| e.text)
    } else {
        own_words(entries)
    }
}

/// Texts without those that repeat the one before them.
pub open spec fn without_repeats(words: Seq<Seq<char>>) -> Seq<Seq<char>>
    decreases words.len(),
{
    if words.len() == 0 {
        Seq::<Seq<char>>::empty()
    } else {
        let before = without_repeats(words.drop_last());
        if before.len() > 0 && before.last() == words.last() {
            before
        } else {
            before.push(words.last())
        }
    }
}

/// What entries amount to: one line for each thing said, repeats said once.
pub open spec fn account(entries: Seq<Entry<Seq<char>>>) -> Seq<char> {
    trimmed(joined(without_repeats(shown_words(entries)), "\n"@))
}

/// Where the unit said anything itself, systemd's entries leave no trace in the account.
pub proof fn the_units_own_words_come_first(entries: Seq<Entry<Seq<char>>>)
    requires
        own_words(entries).len() > 0,
    ensures
        account(entries) == account(entries.filter(|e: Entry<Seq<char>>| !e.from_systemd)),
{
    let own = entries.filter(|e: Entry<Seq<char>>| !e.from_systemd);
    lemma_own_words_of_own_entries(entries);
    assert(own_words(own) == own_words(entries));
}

proof fn lemma_own_words_of_own_entries(entries: Seq<Entry<Seq<char>>>)
    ensures
        own_words(entries.filter(|e: Entry<Seq<char>>| !e.from_systemd)) == own_words(entries),
    decreases entries.len(),
{
    let keep = |e: Entry<Seq<char>>| !e.from_systemd;
    reveal(Seq::filter);
    if entries.len() > 0 {
        lemma_own_words_of_own_entries(entries.drop_last());
        let before = entries.drop_last().filter(keep);
        if keep(entries.last()) {
            assert(entries.filter(keep) == before.push(entries.last()));
            assert(before.push(entries.last()).drop_last() == before);
        }
    }
}

/// Nothing is said twice in a row, whatever was logged.
pub proof fn nothing_is_said_twice_in_a_row(words: Seq<Seq<char>>)
    ensures
        forall|i: int|
            0 < i < without_repeats(words).len() ==> without_repeats(words)[i - 1]
                != #[trigger] without_repeats(words)[i],
        words.len() > 0 ==> without_repeats(words).len() > 0 && without_repeats(words).last()
            == words.last(),
    decreases words.len(),
{
    if words.len() > 0 {
        nothing_is_said_twice_in_a_row(words.drop_last());
        let before = without_repeats(words.drop_last());
        let all = without_repeats(words);
        assert forall|i: int| 0 < i < all.len() implies all[i - 1] != #[trigger] all[i] by {
            if i < before.len() {
                assert(all[i] == before[i] && all[i - 1] == before[i - 1]);
            }
        }
    }
}

/// One complaint that a restart loop repeats, however often, is said once.
pub proof fn a_repeated_complaint_is_said_once(words: Seq<Seq<char>>, complaint: Seq<char>)
    requires
        words.len() > 0,
        forall|i: int| 0 <= i < words.len() ==> words[i] == complaint,
    ensures
        without_repeats(words) == seq![complaint],
    decreases words.len(),
{
    if words.len() > 1 {
        a_repeated_complaint_is_said_once(words.drop_last(), complaint);
    } else {
        assert(words.drop_last().len() == 0);
        assert(without_repeats(words.drop_last()) == Seq::<Seq<char>>::empty());
        assert(words.last() == complaint);
        assert(without_repeats(words) == Seq::<Seq<char>>::empty().push(complaint));
    }
}

/// The bytes that a list of numbers stands for.
fn bytes_of(items: &Vec<Option<u64>>) -> (r: Vec<u8>)
    ensures
        r@ == low_bytes(items@),
{
    let mut r: Vec<u8> = Vec::new();
    let mut i: usize = 0;
    while i < items.len()
        invariant
            i <= items@.len(),
            r@ == low_bytes(items@.take(i as int)),
        decreases items@.len() - i,
    {
        assert(items@.take(i + 1).drop_last() == items@.take(i as int));
        if let Some(n) = items[i] {
            r.push((n % 256) as u8);
        }
        i = i + 1;
    }
    assert(items@.take(items@.len() as int) == items@);
    r
}

/// The entry made of a `MESSAGE` and the name of the process that logged it, if the
/// message says anything.
///
/// The unit's own output is told from systemd's account of it by the process that logged
/// it: the user manager logs as `systemd`, and everything the unit runs as itself.
pub fn entry(message: Message, comm: Option<String>) -> (r: Option<Entry>)
    ensures
        match r {
            Some(e) => entry_of(message@, crate::text::opt_text(comm)) == Some(e@),
            None => entry_of(message@, crate::text::opt_text(comm)) is None,
        },
{
    let text = match message {
        Message::Text(t) => t,
        Message::Bytes(items) => from_utf8_lossy(&bytes_of(&items)),
        Message::Missing => {
            return None;
        },
    };
    if trim(text.as_str()).as_str().is_empty() {
        return None;
    }
    let from_systemd = match &comm {
        Some(c) => same_text(c.as_str(), "systemd"),
        None => false,
    };
    Some(Entry { from_systemd, text })
}

fn message(value: &serde_json::Value) -> (r: Message)
    ensures
        r@ == message_of(json_content(*value)),
{
    match field(value, "MESSAGE") {
        Some(m) => match node(m) {
            Node::Text(t) => Message::Text(t),
            Node::Items(items) => {
                let mut v: Vec<Option<u64>> = Vec::new();
                let mut i: usize = 0;
                while i < items.len()
                    invariant
                        i <= items@.len(),
                        v@ == contents(items@).take(i as int).map_values(
                            |x: Json| number_of(x),
                        ),
                    decreases items@.len() - i,
                {
                    v.push(as_u64(&items[i]));
                    assert(contents(items@).take(i + 1) == contents(items@).take(i as int).push(
                        json_content(items@[i as int]),
                    ));
                    i = i + 1;
                }
                assert(contents(items@).take(items@.len() as int) == contents(items@));
                Message::Bytes(v)
            },
            Node::Other => Message::Missing,
        },
        None => Message::Missing,
    }
}

/// The entry of one journal line, if it is JSON and says something.
pub fn read_entry(line: &str) -> (r: Option<Entry>)
    ensures
        match r {
            Some(e) => line_entry(line@) == Some(e@),
            None => line_entry(line@) is None,
        },
{
    match parse_json(line) {
        Some(value) => {
            let comm = match field(&value, "_COMM") {
                Some(c) => match node(c) {
                    Node::Text(t) => Some(t),
                    _ => None,
                },
                None => None,
            };
            entry(message(&value), comm)
        },
        None => None,
    }
}

/// What entries amount to, for the user to read: the unit's own words where it had any,
/// and systemd's account otherwise. `Restart=on-failure` runs the same command into the
/// same wall, so what is said again right after is left out.
pub fn account_of(entries: &Vec<Entry>) -> (r: String)
    ensures
        r@ == account(views(entries@)),
{
    let ghost all = views(entries@);
    let mut own: Vec<String> = Vec::new();
    let mut every: Vec<String> = Vec::new();
    let mut i: usize = 0;
    while i < entries.len()
        invariant
            i <= entries@.len(),
            all == views(entries@),
            texts(own@) == own_words(all.take(i as int)),
            texts(every@) == all.take(i as int).map_values(|e: Entry<Seq<char>>| e.text),
        decreases entries@.len() - i,
    {
        let ghost before_own = own@;
        let ghost before_every = every@;
        assert(all.take(i + 1).drop_last() == all.take(i as int));
        assert(all.take(i + 1) == all.take(i as int).push(all[i as int]));
        every.push(entries[i].text.clone());
        assert(texts(every@) == texts(before_every).push(entries@[i as int].text@));
        if !entries[i].from_systemd {
            own.push(entries[i].text.clone());
            assert(texts(own@) == texts(before_own).push(entries@[i as int].text@));
        }
        i = i + 1;
    }
    assert(all.take(entries@.len() as int) == all);
    let shown = if own.len() == 0 {
        every
    } else {
        own
    };
    let ghost words = texts(shown@);
    assert(words == shown_words(all));
    let mut said: Vec<String> = Vec::new();
    let mut k: usize = 0;
    while k < shown.len()
        invariant
            k <= shown@.len(),
            words == texts(shown@),
            texts(said@) == without_repeats(words.take(k as int)),
        decreases shown@.len() - k,
    {
        assert(words.take(k + 1).drop_last() == words.take(k as int));
        let ghost before = said@;
        let repeat = said.len() > 0 && same_text(said[said.len() - 1].as_str(), shown[k].as_str());
        assert(said@.len() > 0 ==> texts(said@).last() == said@.last()@);
        if !repeat {
            said.push(shown[k].clone());
            assert(texts(said@) == texts(before).push(shown@[k as int]@));
        }
        k = k + 1;
    }
    assert(words.take(shown@.len() as int) == words);
    let text = join(&said, "\n");
    trim(text.as_str())
}

/// The unit's own output, taken out of a journal window, in JSON lines, that also carries
/// systemd's narration about the unit.
///
/// This becomes a mount's failure reason, and the whole point of it is to say what rclone
/// objected to. A line that cannot be read says nothing.
pub fn what_the_unit_said(journal: &str) -> (r: String)
    ensures
        r@ == account(journal_entries(line_list(journal@))),
{
    let rows = lines(journal);
    let ghost all = texts(rows@);
    let mut entries: Vec<Entry> = Vec::new();
    let mut i: usize = 0;
    while i < rows.len()
        invariant
            i <= rows@.len(),
            all == texts(rows@),
            views(entries@) == journal_entries(all.take(i as int)),
        decreases rows@.len() - i,
    {
        assert(all.take(i + 1).drop_last() == all.take(i as int));
        let ghost before = entries@;
        if let Some(e) = read_entry(rows[i].as_str()) {
            entries.push(e);
            assert(views(entries@) == views(before).push(e@));
        }
        i = i + 1;
    }
    assert(all.take(rows@.len() as int) == all);
    account_of(&entries)
}

} // verus!

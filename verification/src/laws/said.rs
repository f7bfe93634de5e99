//! What is made of a unit's journal, and which spellings are one path.

use crate::journal::{
    account, comm_of, entry_of, journal_entries, line_entry, low_bytes, message_of, own_words,
    shown_words, without_repeats, Entry, Message,
};
use crate::json::{field_of, Json};
use crate::paths::{names_something, same_place};
use crate::text::{lemma_split_has_a_piece, lossy_text, split_on, trimmed};
use vstd::prelude::*;

verus! {

/// Bytes that were written out as numbers are those bytes.
pub proof fn bytes_are_read_back(bytes: Seq<u8>)
    ensures
        low_bytes(bytes.map_values(|b: u8| Some(b as u64))) == bytes,
    decreases bytes.len(),
{
    let items = bytes.map_values(|b: u8| Some(b as u64));
    if bytes.len() > 0 {
        let rest = bytes.drop_last();
        bytes_are_read_back(rest);
        assert(items.drop_last() == rest.map_values(|b: u8| Some(b as u64)));
        let b = bytes.last();
        assert(items.last() == Some(b as u64));
        assert(((b as u64) % 256) as u8 == b);
        assert(rest.push(b) == bytes);
    } else {
        assert(items.len() == 0);
    }
}

/// A message makes an entry exactly where it says something, with its own words, and is
/// systemd's exactly where systemd logged it.
pub proof fn an_entry_keeps_its_words(
    m: Message<Seq<char>, Seq<Option<u64>>>,
    comm: Option<Seq<char>>,
    t: Seq<char>,
)
    ensures
        entry_of(Message::Text(t), comm) is Some <==> trimmed(t).len() > 0,
        entry_of(Message::Text(t), comm) matches Some(e) ==> e.text == t,
        entry_of(m, comm) matches Some(e) ==> (e.from_systemd <==> comm == Some("systemd"@)),
        entry_of(Message::Missing, comm) is None,
        m matches Message::Bytes(items) ==> entry_of(m, comm) == entry_of(
            Message::Text(lossy_text(low_bytes(items))),
            comm,
        ),
{
}

/// The message of a line is its `MESSAGE`, as a text or as bytes, and whose it is stands in its
/// `_COMM`.
pub proof fn a_line_says_its_message(content: Json, t: Seq<char>, c: Seq<char>)
    ensures
        field_of(content, "MESSAGE"@) == Some(Json::Text(t)) ==> message_of(content)
            == Message::<Seq<char>, Seq<Option<u64>>>::Text(t),
        field_of(content, "MESSAGE"@) is None ==> message_of(content) is Missing,
        field_of(content, "_COMM"@) == Some(Json::Text(c)) ==> comm_of(content) == Some(c),
        field_of(content, "_COMM"@) is None ==> comm_of(content) is None,
{
}

/// Every line that says something has its entry, and no other does.
pub proof fn every_line_that_says_something_is_read(rows: Seq<Seq<char>>, i: int)
    ensures
        0 <= i < rows.len() ==> (line_entry(rows[i]) matches Some(e) ==> journal_entries(
            rows,
        ).contains(e)),
        journal_entries(rows).len() <= rows.len(),
        forall|k: int|
            0 <= k < journal_entries(rows).len() ==> is_read_from(
                rows,
                #[trigger] journal_entries(rows)[k],
            ),
    decreases rows.len(),
{
    if rows.len() > 0 {
        let rest = rows.drop_last();
        every_line_that_says_something_is_read(rest, i);
        let before = journal_entries(rest);
        let all = journal_entries(rows);
        if 0 <= i < rest.len() {
            assert(rest[i] == rows[i]);
            if let Some(e) = line_entry(rows[i]) {
                let k = choose|k: int| 0 <= k < before.len() && before[k] == e;
                assert(all[k] == e);
            }
        } else if i == rest.len() {
            if let Some(e) = line_entry(rows[i]) {
                assert(all[before.len() as int] == e);
            }
        }
        assert forall|k: int| 0 <= k < all.len() implies is_read_from(rows, #[trigger] all[k]) by {
            if k < before.len() {
                assert(all[k] == before[k]);
                assert(is_read_from(rest, before[k]));
                let j = choose|j: int|
                    0 <= j < rest.len() && line_entry(#[trigger] rest[j]) == Some(before[k]);
                assert(rows[j] == rest[j]);
            } else {
                assert(line_entry(rows[rows.len() - 1]) == Some(all[k]));
            }
        }
    }
}

/// Whether an entry is that of one of the lines.
pub open spec fn is_read_from(rows: Seq<Seq<char>>, e: Entry<Seq<char>>) -> bool {
    exists|j: int| 0 <= j < rows.len() && line_entry(#[trigger] rows[j]) == Some(e)
}

/// Where a unit said anything itself, all that it said is shown and nothing that systemd did;
/// where it did not, everything is shown.
pub proof fn what_a_unit_said_is_shown(entries: Seq<Entry<Seq<char>>>, i: int)
    ensures
        0 <= i < entries.len() && !entries[i].from_systemd ==> shown_words(entries).contains(
            entries[i].text,
        ),
        (forall|k: int| 0 <= k < entries.len() ==> (#[trigger] entries[k]).from_systemd)
            ==> shown_words(entries) == entries.map_values(|e: Entry<Seq<char>>| e.text),
        forall|k: int|
            0 <= k < own_words(entries).len() ==> said_itself(
                entries,
                #[trigger] own_words(entries)[k],
            ),
    decreases entries.len(),
{
    lemma_own_words(entries);
    if 0 <= i < entries.len() && !entries[i].from_systemd {
        assert(own_words(entries).contains(entries[i].text));
    }
    if forall|k: int| 0 <= k < entries.len() ==> (#[trigger] entries[k]).from_systemd {
        if own_words(entries).len() > 0 {
            assert(said_itself(entries, own_words(entries)[0]));
        }
    }
}

/// Whether a unit said this itself.
pub open spec fn said_itself(entries: Seq<Entry<Seq<char>>>, words: Seq<char>) -> bool {
    exists|j: int|
        0 <= j < entries.len() && (#[trigger] entries[j]).text == words && !entries[j].from_systemd
}

proof fn lemma_own_words(entries: Seq<Entry<Seq<char>>>)
    ensures
        forall|i: int|
            0 <= i < entries.len() && !(#[trigger] entries[i]).from_systemd ==> own_words(
                entries,
            ).contains(entries[i].text),
        forall|k: int|
            0 <= k < own_words(entries).len() ==> said_itself(
                entries,
                #[trigger] own_words(entries)[k],
            ),
    decreases entries.len(),
{
    if entries.len() > 0 {
        let rest = entries.drop_last();
        lemma_own_words(rest);
        let before = own_words(rest);
        let all = own_words(entries);
        assert forall|i: int|
            0 <= i < entries.len() && !(#[trigger] entries[i]).from_systemd implies all.contains(
            entries[i].text,
        ) by {
            if i < rest.len() {
                assert(rest[i] == entries[i]);
                let k = choose|k: int| 0 <= k < before.len() && before[k] == entries[i].text;
                assert(all[k] == entries[i].text);
            } else {
                assert(all[before.len() as int] == entries[i].text);
            }
        }
        assert forall|k: int| 0 <= k < all.len() implies said_itself(
            entries,
            #[trigger] all[k],
        ) by {
            if k < before.len() {
                assert(all[k] == before[k]);
                assert(said_itself(rest, before[k]));
                let j = choose|j: int|
                    0 <= j < rest.len() && (#[trigger] rest[j]).text == before[k] && !rest[
                    j].from_systemd;
                assert(entries[j] == rest[j]);
            } else {
                assert(entries[entries.len() - 1].text == all[k]);
            }
        }
    }
}

/// Leaving repeats out leaves out nothing else: every word is still said, none is added, and
/// words that nothing repeats stay as they were.
pub proof fn only_repeats_are_left_out(words: Seq<Seq<char>>, w: Seq<char>)
    ensures
        words.contains(w) <==> without_repeats(words).contains(w),
        (forall|i: int| 0 < i < words.len() ==> words[i - 1] != #[trigger] words[i])
            ==> without_repeats(words) == words,
    decreases words.len(),
{
    if words.len() > 0 {
        let rest = words.drop_last();
        let before = without_repeats(rest);
        let all = without_repeats(words);
        only_repeats_are_left_out(rest, w);
        crate::journal::nothing_is_said_twice_in_a_row(rest);
        if words.contains(w) {
            let i = choose|i: int| 0 <= i < words.len() && words[i] == w;
            if i < rest.len() {
                assert(rest[i] == w);
                let k = choose|k: int| 0 <= k < before.len() && before[k] == w;
                assert(all[k] == w);
            } else {
                assert(all[all.len() - 1] == w);
            }
        }
        if all.contains(w) {
            let k = choose|k: int| 0 <= k < all.len() && all[k] == w;
            if k < before.len() {
                assert(before[k] == w);
                let i = choose|i: int| 0 <= i < rest.len() && rest[i] == w;
                assert(words[i] == w);
            } else {
                assert(words[words.len() - 1] == w);
            }
        }
        if forall|i: int| 0 < i < words.len() ==> words[i - 1] != #[trigger] words[i] {
            assert forall|i: int| 0 < i < rest.len() implies rest[i - 1] != #[trigger] rest[i] by {
                assert(words[i] == rest[i]);
            }
            assert(before == rest);
            if rest.len() > 0 {
                assert(words[words.len() - 1 - 1] != words[words.len() - 1]);
            }
            assert(rest.push(words.last()) == words);
        }
    }
}

/// The account of entries is what is shown of them, a line each, and nothing around it.
pub proof fn an_account_is_what_is_shown(e: Entry<Seq<char>>)
    ensures
        account(seq![e]) == trimmed(e.text),
        account(Seq::empty()) == Seq::<char>::empty(),
{
    let entries = seq![e];
    reveal_with_fuel(own_words, 2);
    assert(entries.drop_last().len() == 0);
    assert(entries.map_values(|e: Entry<Seq<char>>| e.text) == seq![e.text]);
    assert(own_words(entries.drop_last()) == Seq::<Seq<char>>::empty());
    assert(shown_words(entries) == seq![e.text]);
    reveal_with_fuel(without_repeats, 2);
    assert(seq![e.text].drop_last().len() == 0);
    assert(without_repeats(seq![e.text]) == seq![e.text]);
    let none = Seq::<Entry<Seq<char>>>::empty();
    assert(none.map_values(|e: Entry<Seq<char>>| e.text).len() == 0);
    assert(without_repeats(shown_words(none)).len() == 0);
}

/// A separator at the end of a path does not make it another.
pub proof fn a_trailing_separator_does_not_count(p: Seq<char>)
    requires
        p.len() > 0,
    ensures
        same_place(p.push('/'), p),
{
    let q = p.push('/');
    let a = split_on(p, '/');
    let b = split_on(q, '/');
    let none = Seq::<char>::empty();
    assert(q.drop_last() == p);
    assert(b == a.push(none));
    lemma_split_has_a_piece(p, '/');
    let f = |c: Seq<char>| names_something(c);
    assert(b.filter(f) == a.filter(f)) by {
        reveal(Seq::filter);
        assert(b.drop_last() == a);
        assert(!f(b.last()));
    }
    assert(b[0] == a[0]);
    assert(q[0] == p[0]);
}

} // verus!

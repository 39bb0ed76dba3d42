//! The log.

use super::state::{AppState, AppView, EventEntry, EventView};
use crate::text;
use vstd::prelude::*;

verus! {

/// The first `n` bytes in hexadecimal, each followed by a space, eight to a line.
pub open spec fn hex_lines(bytes: Seq<u8>, n: nat) -> Seq<char>
    decreases n,
{
    if n == 0 {
        Seq::empty()
    } else {
        hex_lines(bytes, (n - 1) as nat) + (if n > 1 && (n - 1) % 8 == 0 {
            "\n"@
        } else {
            Seq::empty()
        }) + text::hex_byte(bytes[n - 1]) + " "@
    }
}

/// Bytes in hexadecimal, followed by how many they are.
pub open spec fn dumped(bytes: Seq<u8>) -> Seq<char> {
    hex_lines(bytes, bytes.len()) + "\n[len="@ + text::decimal(bytes.len()) + "]"@
}

/// Bytes in hexadecimal, followed by how many they are.
pub fn hex_dump(bytes: &[u8]) -> (s: String)
    ensures
        s@ == dumped(bytes@),
{
    let mut s = String::new();
    let mut i: usize = 0;
    while i < bytes.len()
        invariant
            i <= bytes@.len(),
            s@ == hex_lines(bytes@, i as nat),
        decreases bytes@.len() - i,
    {
        if i > 0 && i % 8 == 0 {
            s.append("\n");
        }
        text::push_hex_byte(&mut s, bytes[i]);
        s.append(" ");
        i = i + 1;
        assert(s@ =~= hex_lines(bytes@, i as nat));
    }
    s.append("\n[len=");
    text::push_decimal(&mut s, bytes.len() as u64);
    s.append("]");
    assert(s@ =~= dumped(bytes@));
    s
}

/// Empties the log.
pub fn clear_log(app: &mut AppState)
    ensures
        final(app)@ == (AppView { events: Seq::empty(), ..old(app)@ }),
        old(app).wf() ==> final(app).wf(),
{
    app.events.clear();
    assert(app@.events =~= Seq::<EventView>::empty());
}

/// The log entry in a line of the page, counted from the top: the newest entry
/// comes first.
pub fn event_at_line(app: &AppState, line: usize) -> (e: &EventEntry)
    requires
        line < app.events@.len(),
    ensures
        e@ == app@.events[app@.events.len() - 1 - line],
{
    &app.events[app.events.len() - 1 - line]
}

/// One line of the log. Entries with bytes can be opened.
#[derive(Debug)]
pub struct EventRow {
    pub has_bytes: bool,
    pub expanded: bool,
}

impl EventRow {
    /// The line of an entry, closed.
    pub fn new(entry: &EventEntry) -> (row: EventRow)
        ensures
            row == (EventRow { has_bytes: entry@.bytes is Some, expanded: false }),
    {
        EventRow { has_bytes: entry.bytes.is_some(), expanded: false }
    }

    /// The line after a click: one with bytes opens or closes.
    pub open spec fn clicked(self) -> EventRow {
        EventRow {
            expanded: if self.has_bytes {
                !self.expanded
            } else {
                self.expanded
            },
            ..self
        }
    }

    /// A click opens or closes a line with bytes.
    pub fn on_click(&mut self)
        ensures
            *final(self) == old(self).clicked(),
    {
        if self.has_bytes {
            self.expanded = !self.expanded;
        }
    }

    /// A key opens or closes a line with bytes if it is Enter or the space bar.
    /// Says whether the key was used up.
    pub fn on_key(&mut self, key: &str) -> (used: bool)
        ensures
            used == (old(self).has_bytes && (key@ == "Enter"@ || key@ == " "@)),
            *final(self) == (if used {
                old(self).clicked()
            } else {
                *old(self)
            }),
    {
        if !self.has_bytes {
            return false;
        }
        if text::same_text(key, "Enter") || text::same_text(key, " ") {
            self.expanded = !self.expanded;
            true
        } else {
            false
        }
    }

    /// Whether the line can be reached with the keyboard.
    pub fn tabindex(&self) -> (s: &'static str)
        ensures
            s@ == (if self.has_bytes {
                "0"@
            } else {
                "-1"@
            }),
    {
        if self.has_bytes {
            "0"
        } else {
            "-1"
        }
    }

    /// What the line is to assistive technology.
    pub fn role(&self) -> (s: &'static str)
        ensures
            s@ == (if self.has_bytes {
                "button"@
            } else {
                "presentation"@
            }),
    {
        if self.has_bytes {
            "button"
        } else {
            "presentation"
        }
    }

    /// Whether the line is open, for assistive technology.
    pub fn aria_expanded(&self) -> (s: &'static str)
        ensures
            s@ == (if self.has_bytes && self.expanded {
                "true"@
            } else {
                "false"@
            }),
    {
        if self.has_bytes && self.expanded {
            "true"
        } else {
            "false"
        }
    }

    /// The mark of a line with bytes.
    pub fn caret(&self) -> (s: &'static str)
        ensures
            s@ == (if self.expanded {
                "▼"@
            } else {
                "▶"@
            }),
    {
        if self.expanded {
            "▼"
        } else {
            "▶"
        }
    }
}

/// The class of an entry's badge.
pub fn badge_classes(entry: &EventEntry) -> (s: String)
    ensures
        s@ == "badge "@ + entry.dir.badge_class_text(),
{
    let mut s = String::new();
    s.append("badge ");
    s.append(entry.dir.badge_class());
    assert(s@ =~= "badge "@ + entry.dir.badge_class_text());
    s
}

/// An entry for assistive technology: what it is about and what it says.
pub fn aria_summary(entry: &EventEntry) -> (s: String)
    ensures
        s@ == entry.dir.label_text() + " "@ + entry@.summary,
{
    let mut s = String::new();
    s.append(entry.dir.label());
    s.append(" ");
    s.append(entry.summary.as_str());
    assert(s@ =~= entry.dir.label_text() + " "@ + entry@.summary);
    s
}

/// What an open line shows below itself; nothing while it is closed.
pub fn opened_bytes(row: &EventRow, entry: &EventEntry) -> (s: Option<String>)
    ensures
        s is Some <==> row.expanded && entry@.bytes is Some,
        s is Some ==> s->0@ == dumped(entry@.bytes->0),
{
    if !row.expanded {
        return None;
    }
    match &entry.bytes {
        Some(bytes) => Some(hex_dump(bytes.as_slice())),
        None => None,
    }
}

/// Two clicks leave a line as it was.
pub proof fn lemma_two_clicks_cancel(row: EventRow)
    ensures
        row.clicked().clicked() == row,
{
}

/// A dump reads back byte by byte: two hexadecimal digits and a space for each, and a line
/// break before every ninth.
pub proof fn lemma_dump_reads_back(bytes: Seq<u8>, n: nat, i: int)
    requires
        0 <= i < n <= bytes.len(),
    ensures
        ({
            let s = hex_lines(bytes, n);
            let at = 3 * i + i / 8;
            &&& s.len() == 3 * n + (n - 1) / 8
            &&& text::sign_value(s[at]) * 16 + text::sign_value(s[at + 1]) == bytes[i]
            &&& s[at + 2] == ' '
            &&& i > 0 && i % 8 == 0 ==> s[at - 1] == '\n'
        }),
    decreases n,
{
    reveal_strlit("\n");
    reveal_strlit(" ");
    let m = (n - 1) as nat;
    text::lemma_byte_reads_back(bytes[n - 1]);
    if m > 0 {
        let j = if i < m {
            i
        } else {
            0
        };
        lemma_dump_reads_back(bytes, m, j);
    } else {
        assert(hex_lines(bytes, 0).len() == 0);
    }
}

/// A dump ends with the number of its bytes.
pub proof fn lemma_dump_ends_with_the_length(bytes: Seq<u8>)
    ensures
        dumped(bytes).last() == ']',
        text::number_of(
            dumped(bytes).subrange(hex_lines(bytes, bytes.len()).len() as int + 6, dumped(bytes).len() - 1),
            10,
        ) == bytes.len(),
{
    reveal_strlit("\n[len=");
    reveal_strlit("]");
    text::lemma_decimal_reads_back(bytes.len());
    assert(dumped(bytes).subrange(hex_lines(bytes, bytes.len()).len() as int + 6, dumped(bytes).len() - 1)
        =~= text::decimal(bytes.len()));
}

/// A click opens and closes a line with bytes, and does nothing to one without.
pub proof fn lemma_click_opens_lines_with_bytes(row: EventRow)
    ensures
        row.has_bytes ==> row.clicked().expanded == !row.expanded,
        !row.has_bytes ==> row.clicked().expanded == row.expanded,
        row.clicked().has_bytes == row.has_bytes,
{
}

} // verus!

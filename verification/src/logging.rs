//! How log events are shown: which are printed raw, which are filtered by
//! verbosity, the symbol and style of each level, and line endings for a
//! terminal in raw mode.

use vstd::prelude::*;
use crate::style::{Style, Tone};
use crate::text::{chars_equal, chars_of, push_char};

verus! {

/// The severity of a log event.
#[derive(Clone, Copy, PartialEq, Eq, Structural, Debug)]
pub enum Level {
    Trace,
    Debug,
    Info,
    Warn,
    Error,
}

/// How a field of a log event is written.
#[derive(Clone, Copy, PartialEq, Eq, Structural, Debug)]
pub enum FieldRole {
    /// Not written (`status` and `verbosity` steer the output).
    Hidden,
    /// Written as the event's message.
    Message,
    /// Written as ` name=value`.
    Named,
}

/// Whether an event of `target` is terminal output to print raw.
pub fn is_print_target(target: &str) -> (r: bool)
    ensures
        r == (target@ == "zond::print"@),
{
    let t = chars_of(target);
    chars_equal(t.as_slice(), "zond::print")
}

/// Whether an event of the given verbosity (none counts as 0) is shown at
/// the maximum verbosity `max_verbosity`.
pub fn should_emit(event_verbosity: Option<u8>, max_verbosity: u8) -> (r: bool)
    ensures
        r == (match event_verbosity {
            Some(v) => v,
            None => 0u8,
        } <= max_verbosity),
{
    let v = match event_verbosity {
        Some(v) => v,
        None => 0,
    };
    v <= max_verbosity
}

/// The symbol and style that mark an event of `level`; informational
/// events with the status "info" are marked apart.
pub fn event_symbol(level: Level, status: Option<&str>) -> (r: (&'static str, Style))
    ensures
        r.0@ == match level {
            Level::Trace => "[ ]"@,
            Level::Debug => "[?]"@,
            Level::Info => if status is Some && status->0@ == "info"@ {
                "[»]"@
            } else {
                "[+]"@
            },
            Level::Warn => "[*]"@,
            Level::Error => "[-]"@,
        },
        r.1 == match level {
            Level::Trace => Style { tone: Tone::Plain, bold: false, italic: false, dimmed: true },
            Level::Debug => Style { tone: Tone::Blue, bold: false, italic: false, dimmed: false },
            Level::Info => if status is Some && status->0@ == "info"@ {
                Style { tone: Tone::Cyan, bold: true, italic: false, dimmed: false }
            } else {
                Style { tone: Tone::Green, bold: true, italic: false, dimmed: false }
            },
            Level::Warn => Style { tone: Tone::Yellow, bold: true, italic: false, dimmed: false },
            Level::Error => Style { tone: Tone::Red, bold: true, italic: false, dimmed: false },
        },
{
    match level {
        Level::Trace => ("[ ]", Style { tone: Tone::Plain, bold: false, italic: false, dimmed: true }),
        Level::Debug => ("[?]", Style { tone: Tone::Blue, bold: false, italic: false, dimmed: false }),
        Level::Info => {
            let is_info = match status {
                Some(s) => {
                    let c = chars_of(s);
                    chars_equal(c.as_slice(), "info")
                },
                None => false,
            };
            if is_info {
                ("[»]", Style { tone: Tone::Cyan, bold: true, italic: false, dimmed: false })
            } else {
                ("[+]", Style { tone: Tone::Green, bold: true, italic: false, dimmed: false })
            }
        },
        Level::Warn => ("[*]", Style { tone: Tone::Yellow, bold: true, italic: false, dimmed: false }),
        Level::Error => ("[-]", Style { tone: Tone::Red, bold: true, italic: false, dimmed: false }),
    }
}

/// The verbosity carried by an unsigned field: for the field `verbosity`,
/// its value truncated to a byte.
pub fn verbosity_from_u64(field: &str, value: u64) -> (r: Option<u8>)
    ensures
        r == if field@ == "verbosity"@ {
            Some(value as u8)
        } else {
            None
        },
{
    let f = chars_of(field);
    if chars_equal(f.as_slice(), "verbosity") {
        Some(value as u8)
    } else {
        None
    }
}

/// The verbosity carried by a signed field: for the field `verbosity`, its
/// value truncated to a byte.
pub fn verbosity_from_i64(field: &str, value: i64) -> (r: Option<u8>)
    ensures
        r == if field@ == "verbosity"@ {
            Some(value as u8)
        } else {
            None
        },
{
    let f = chars_of(field);
    if chars_equal(f.as_slice(), "verbosity") {
        Some(value as u8)
    } else {
        None
    }
}

/// Whether a text field carries the event's status: the field `status`.
pub fn is_status_field(field: &str) -> (r: bool)
    ensures
        r == (field@ == "status"@),
{
    let f = chars_of(field);
    chars_equal(f.as_slice(), "status")
}

/// How a field is written.
pub fn field_role(name: &str) -> (r: FieldRole)
    ensures
        r == if name@ == "status"@ || name@ == "verbosity"@ {
            FieldRole::Hidden
        } else if name@ == "message"@ {
            FieldRole::Message
        } else {
            FieldRole::Named
        },
{
    let n = chars_of(name);
    if chars_equal(n.as_slice(), "status") || chars_equal(n.as_slice(), "verbosity") {
        FieldRole::Hidden
    } else if chars_equal(n.as_slice(), "message") {
        FieldRole::Message
    } else {
        FieldRole::Named
    }
}

/// Whether a field holds raw terminal output: the field `raw_msg`.
pub fn is_raw_field(name: &str) -> (r: bool)
    ensures
        r == (name@ == "raw_msg"@),
{
    let n = chars_of(name);
    chars_equal(n.as_slice(), "raw_msg")
}

/// The text with every line feed written as carriage return and line feed.
pub open spec fn spec_crlf(s: Seq<char>) -> Seq<char>
    decreases s.len(),
{
    if s.len() == 0 {
        Seq::empty()
    } else if s.last() == '\n' {
        spec_crlf(s.drop_last()) + seq!['\r', '\n']
    } else {
        spec_crlf(s.drop_last()).push(s.last())
    }
}

/// Writes every line feed of a text as carriage return and line feed
/// (`str::replace('\n', "\r\n")`), for a terminal in raw mode.
pub fn to_crlf(text: &str) -> (r: String)
    ensures
        r@ == spec_crlf(text@),
{
    let c = chars_of(text);
    let mut r = String::new();
    let mut i: usize = 0;
    while i < c.len()
        invariant
            i <= c@.len(),
            c@ == text@,
            r@ == spec_crlf(c@.take(i as int)),
        decreases c@.len() - i,
    {
        assert(c@.take(i + 1).drop_last() =~= c@.take(i as int));
        if c[i] == '\n' {
            push_char(&mut r, '\r');
            push_char(&mut r, '\n');
            assert(r@ =~= spec_crlf(c@.take(i + 1)));
        } else {
            push_char(&mut r, c[i]);
        }
        i = i + 1;
    }
    assert(c@.take(c@.len() as int) =~= c@);
    r
}

/// After the conversion every line feed follows a carriage return, and the
/// text grew by one character per line feed.
pub proof fn lemma_crlf(s: Seq<char>)
    ensures
        forall|k: int| 0 <= k < spec_crlf(s).len() && #[trigger] spec_crlf(s)[k] == '\n' ==> k > 0
            && spec_crlf(s)[k - 1] == '\r',
        spec_crlf(s).len() == s.len() + count_lf(s),
    decreases s.len(),
{
    if s.len() > 0 {
        lemma_crlf(s.drop_last());
        let r = spec_crlf(s.drop_last());
        assert forall|k: int| 0 <= k < spec_crlf(s).len() && #[trigger] spec_crlf(s)[k] == '\n'
            implies k > 0 && spec_crlf(s)[k - 1] == '\r' by {
            if k < r.len() {
                assert(spec_crlf(s)[k] == r[k]);
                assert(spec_crlf(s)[k - 1] == r[k - 1]);
            }
        }
    }
}

/// The number of line feeds.
pub open spec fn count_lf(s: Seq<char>) -> nat
    decreases s.len(),
{
    if s.len() == 0 {
        0
    } else {
        count_lf(s.drop_last()) + if s.last() == '\n' {
            1nat
        } else {
            0nat
        }
    }
}

} // verus!

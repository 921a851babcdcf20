//! What the progress spinner shows: for the first two seconds of every
//! five-second cycle the live status (when there is one), otherwise a tip
//! that changes with each cycle.

use vstd::prelude::*;
use crate::style::{lit_span, shows, text_span, Span, Style, Tone};
use crate::text::{decimal_text, spec_decimal};

verus! {

/// The length of one cycle of the spinner text, in milliseconds.
pub const CYCLE_MS: u128 = 5000;

/// How long the status stays visible at the start of a cycle, in milliseconds.
pub const STATUS_MS: u128 = 2000;

/// What the spinner shows at a moment.
#[derive(Clone, Copy, PartialEq, Eq, Structural, Debug)]
pub enum Frame {
    /// The live status message.
    Status,
    /// The tip at this index.
    Tip(usize),
}

/// The tip shown after `elapsed_ms` milliseconds: one per cycle, in turn.
pub open spec fn spec_tip_index(elapsed_ms: u128, n_tips: usize) -> usize {
    (((elapsed_ms / 5000) as usize) % n_tips) as usize
}

/// What the spinner shows after `elapsed_ms` milliseconds.
pub open spec fn spec_frame(elapsed_ms: u128, has_status: bool, n_tips: usize) -> Frame {
    if has_status && elapsed_ms % 5000 < 2000 {
        Frame::Status
    } else {
        Frame::Tip(spec_tip_index(elapsed_ms, n_tips))
    }
}

/// What the spinner shows after `elapsed_ms` milliseconds, with or without a
/// live status, rotating through `n_tips` tips.
pub fn spinner_frame(elapsed_ms: u128, has_status: bool, n_tips: usize) -> (f: Frame)
    requires
        n_tips > 0,
    ensures
        f == spec_frame(elapsed_ms, has_status, n_tips),
{
    let cycle_time = elapsed_ms % CYCLE_MS;
    let tip_index = ((elapsed_ms / CYCLE_MS) as usize) % n_tips;
    let show_status = has_status && cycle_time < STATUS_MS;
    if show_status {
        Frame::Status
    } else {
        Frame::Tip(tip_index)
    }
}

/// The status shows exactly in the first two seconds of each cycle, and
/// within one cycle the tip does not change; tips are always valid indices.
pub proof fn lemma_spinner_cycle(e1: u128, e2: u128, has_status: bool, n_tips: usize)
    requires
        n_tips > 0,
    ensures
        spec_frame(e1, has_status, n_tips) == Frame::Status <==> has_status && e1 % 5000 < 2000,
        e1 / 5000 == e2 / 5000 ==> spec_tip_index(e1, n_tips) == spec_tip_index(e2, n_tips),
        spec_tip_index(e1, n_tips) < n_tips,
{
}

/// The style of the spinner's messages.
pub open spec fn message_style() -> Style {
    Style { tone: Tone::TextDefault, bold: false, italic: true, dimmed: false }
}

/// The style of a tip.
pub fn tip_style() -> (s: Style)
    ensures
        s == message_style(),
{
    Style { tone: Tone::TextDefault, bold: false, italic: true, dimmed: false }
}

/// Whether `l` is `<verb> <count> host(s) so far...` with the count in bold green.
pub open spec fn is_status_line(l: Seq<Span>, verb: Seq<char>, count: usize) -> bool {
    &&& l.len() == 3
    &&& shows(l[0], verb + " "@, message_style())
    &&& shows(l[1], spec_decimal(count as nat), Style { tone: Tone::Green, bold: true, italic: true, dimmed: false })
    &&& shows(
        l[2],
        if count == 1 {
            " host so far..."@
        } else {
            " hosts so far..."@
        },
        message_style(),
    )
}

fn status_line(verb_space: &str, count: usize) -> (l: Vec<Span>)
    ensures
        l@.len() == 3,
        shows(l@[0], verb_space@, message_style()),
        shows(l@[1], spec_decimal(count as nat), Style { tone: Tone::Green, bold: true, italic: true, dimmed: false }),
        shows(
            l@[2],
            if count == 1 {
                " host so far..."@
            } else {
                " hosts so far..."@
            },
            message_style(),
        ),
{
    let label = if count == 1 {
        " host so far..."
    } else {
        " hosts so far..."
    };
    let mut l: Vec<Span> = Vec::new();
    l.push(lit_span(verb_space, tip_style()));
    l.push(text_span(decimal_text(count as u128), Style { tone: Tone::Green, bold: true, italic: true, dimmed: false }));
    l.push(lit_span(label, tip_style()));
    l
}

/// The live status of a discovery: "Identified N host(s) so far...".
pub fn discover_status(count: usize) -> (l: Vec<Span>)
    ensures
        is_status_line(l@, "Identified"@, count),
{
    proof {
        reveal_strlit("Identified ");
        reveal_strlit("Identified");
        reveal_strlit(" ");
        assert("Identified "@ =~= "Identified"@ + " "@);
    }
    status_line("Identified ", count)
}

/// The live status of a port scan: "Scanned N host(s) so far...".
pub fn scan_status(count: usize) -> (l: Vec<Span>)
    ensures
        is_status_line(l@, "Scanned"@, count),
{
    proof {
        reveal_strlit("Scanned ");
        reveal_strlit("Scanned");
        reveal_strlit(" ");
        assert("Scanned "@ =~= "Scanned"@ + " "@);
    }
    status_line("Scanned ", count)
}

} // verus!

//! Layout of the terminal report: centered titles, dividers, trees of
//! key/value details, and the output settings that decide what is shown.

use vstd::prelude::*;
use crate::cli::Config;
use crate::host::{is_host_block, Host};
use crate::style::{bold, line_text, lit_span, shows, span_text, spec_tone, text_span, tone, Content, Span, Style, Tone};
use crate::text::{decimal_text, push_repeat, repeat_text, spec_decimal, spec_repeat, spec_split, split_chars, chars_of, strings_view};

verus! {

/// The width of the report blocks, in columns.
pub const TOTAL_WIDTH: usize = 64;

/// Columns that `s` takes on a terminal once ANSI escape codes are removed
/// (`console::measure_text_width`).
pub uninterp spec fn spec_text_width(s: Seq<char>) -> usize;

/// Whether every character of `s` is printable ASCII (space to `~`).
pub open spec fn is_printable_ascii(s: Seq<char>) -> bool {
    forall|i: int| 0 <= i < s.len() ==> 0x20 <= #[trigger] s[i] as int <= 0x7e
}

/// Measures the terminal width of a text with `console::measure_text_width`;
/// the width is named, and printable ASCII text takes one column a character.
#[verifier::external_body]
pub(crate) fn measure_text_width(s: &str) -> (w: usize)
    ensures
        w == spec_text_width(s@),
        is_printable_ascii(s@) ==> w == s@.len(),
{
    console::measure_text_width(s)
}

/// The upper-case form of a text (`str::to_uppercase`).
pub uninterp spec fn spec_uppercase(s: Seq<char>) -> Seq<char>;

/// Upper-cases a text with `str::to_uppercase`; the result is named.
#[verifier::external_body]
pub(crate) fn to_uppercase(s: &str) -> (r: String)
    ensures
        r@ == spec_uppercase(s@),
{
    s.to_uppercase()
}

/// The fill to the left and right of a text of width `w` centered in `total`
/// columns: the free columns are split, the extra one going to the right.
pub open spec fn center_pads(w: nat, total: nat) -> (nat, nat) {
    let pad: nat = if total > w { (total - w) as nat } else { 0 };
    let left: nat = pad / 2;
    (left, (pad - left) as nat)
}

/// `text` centered in `total` columns with copies of `fill`.
pub open spec fn spec_centered(text: Seq<char>, fill: Seq<char>, total: nat) -> Seq<char> {
    let (left, right) = center_pads(spec_text_width(text) as nat, total);
    spec_repeat(fill, left) + text + spec_repeat(fill, right)
}

/// Centering is balanced: the two sides differ by at most one copy of the
/// fill (the right one being the longer), and together with the text they
/// take the whole width when the text fits.
pub proof fn lemma_centered_balanced(w: nat, total: nat)
    ensures
        center_pads(w, total).0 <= center_pads(w, total).1 <= center_pads(w, total).0 + 1,
        w <= total ==> center_pads(w, total).0 + center_pads(w, total).1 + w == total,
        w >= total ==> center_pads(w, total).0 == 0 && center_pads(w, total).1 == 0,
{
}

/// The fill counts for centering `text` in `total` columns.
fn pads_for(text: &str, total: usize) -> (r: (usize, usize))
    ensures
        r.0 == center_pads(spec_text_width(text@) as nat, total as nat).0,
        r.1 == center_pads(spec_text_width(text@) as nat, total as nat).1,
        is_printable_ascii(text@) ==> spec_text_width(text@) == text@.len(),
{
    let w = measure_text_width(text);
    let pad = total.saturating_sub(w);
    let left = pad / 2;
    (left, pad - left)
}

/// `s` repeated `n` times, for a one-character `s`, is `n` copies of that
/// character.
pub proof fn lemma_repeat_char(s: Seq<char>, n: nat)
    requires
        s.len() == 1,
    ensures
        spec_repeat(s, n).len() == n,
        forall|i: int| 0 <= i < n ==> #[trigger] spec_repeat(s, n)[i] == s[0],
    decreases n,
{
    if n > 0 {
        lemma_repeat_char(s, (n - 1) as nat);
    }
}

/// Centering printable ASCII text with a one-character printable ASCII fill
/// gives printable ASCII text exactly as wide as the total width, or as the
/// text when it is wider.
proof fn lemma_centered_ascii_width(text: Seq<char>, fill: Seq<char>, total: nat)
    requires
        is_printable_ascii(text),
        is_printable_ascii(fill),
        fill.len() == 1,
        spec_text_width(text) == text.len(),
    ensures
        is_printable_ascii(spec_centered(text, fill, total)),
        spec_centered(text, fill, total).len() == if total > text.len() {
            total as int
        } else {
            text.len() as int
        },
{
    let (left, right) = center_pads(text.len(), total);
    lemma_repeat_char(fill, left);
    lemma_repeat_char(fill, right);
    let r = spec_centered(text, fill, total);
    let l = spec_repeat(fill, left);
    let rr = spec_repeat(fill, right);
    assert(r == l + text + rr);
    assert forall|i: int| 0 <= i < r.len() implies 0x20 <= #[trigger] r[i] as int <= 0x7e by {
        if i < l.len() {
            assert(r[i] == l[i]);
        } else if i < l.len() + text.len() {
            assert(r[i] == text[i - l.len()]);
        } else {
            assert(r[i] == rr[i - l.len() - text.len()]);
        }
    }
}

/// Centers a text by padding it with copies of `fill`. Printable ASCII text
/// centered with one printable ASCII fill character is as wide as the total
/// width (or as the text, when that is wider).
pub fn format_centered(text: &str, fill: &str, total_width: usize) -> (r: String)
    ensures
        r@ == spec_centered(text@, fill@, total_width as nat),
        is_printable_ascii(text@) && is_printable_ascii(fill@) && fill@.len() == 1 ==> is_printable_ascii(r@)
            && r@.len() == if total_width > text@.len() {
            total_width as int
        } else {
            text@.len() as int
        },
{
    let (left, right) = pads_for(text, total_width);
    let mut r = String::new();
    push_repeat(&mut r, fill, left);
    r.append(text);
    push_repeat(&mut r, fill, right);
    proof {
        if is_printable_ascii(text@) && is_printable_ascii(fill@) && fill@.len() == 1 {
            lemma_centered_ascii_width(text@, fill@, total_width as nat);
        }
    }
    r
}

/// A line of three spans: unstyled fill, `text` in `st`, unstyled fill,
/// centering `text` in `total` columns.
pub fn centered_line(text: &str, st: Style, fill: &str, total_width: usize) -> (l: Vec<Span>)
    ensures
        l@.len() == 3,
        shows(
            l@[0],
            spec_repeat(fill@, center_pads(spec_text_width(text@) as nat, total_width as nat).0),
            spec_tone(Tone::Plain),
        ),
        shows(l@[1], text@, st),
        shows(
            l@[2],
            spec_repeat(fill@, center_pads(spec_text_width(text@) as nat, total_width as nat).1),
            spec_tone(Tone::Plain),
        ),
{
    let (left, right) = pads_for(text, total_width);
    let mut l: Vec<Span> = Vec::new();
    l.push(text_span(repeat_text(fill, left), tone(Tone::Plain)));
    l.push(lit_span(text, st));
    l.push(text_span(repeat_text(fill, right), tone(Tone::Plain)));
    l
}

/// The divider: a line of `═` across the report width.
pub fn divider() -> (r: String)
    ensures
        r@ == spec_centered(Seq::empty(), "═"@, TOTAL_WIDTH as nat),
{
    proof {
        reveal_strlit("");
        assert(""@ =~= Seq::<char>::empty());
    }
    format_centered("", "═", TOTAL_WIDTH)
}

/// A message centered across the report width with spaces.
pub fn centerln(msg: &str) -> (r: String)
    ensures
        r@ == spec_centered(msg@, " "@, TOTAL_WIDTH as nat),
        is_printable_ascii(msg@) ==> is_printable_ascii(r@) && r@.len() == if TOTAL_WIDTH > msg@.len() {
            TOTAL_WIDTH as int
        } else {
            msg@.len() as int
        },
{
    proof {
        reveal_strlit(" ");
    }
    format_centered(msg, " ", TOTAL_WIDTH)
}

/// The first two dot-separated components of a version ("1.4.2" gives "1.4").
pub open spec fn spec_display_version(v: Seq<char>) -> Seq<char> {
    let parts = spec_split(v, '.');
    if parts.len() >= 2 {
        parts[0] + seq!['.'] + parts[1]
    } else {
        parts[0]
    }
}

/// The first two dot-separated components of a version.
pub fn display_version(version: &str) -> (r: String)
    ensures
        r@ == spec_display_version(version@),
{
    let chars = chars_of(version);
    let parts = split_chars(chars.as_slice(), 0, '.');
    assert(chars@.skip(0) =~= version@);
    proof {
        crate::text::lemma_split_nonempty(version@, '.');
    }
    let mut r = String::new();
    r.append(parts[0].as_str());
    if parts.len() >= 2 {
        crate::text::push_char(&mut r, '.');
        r.append(parts[1].as_str());
    }
    assert(r@ =~= spec_display_version(version@));
    r
}

/// A key/value detail shown in a host's tree.
#[derive(PartialEq, Eq, Debug)]
pub struct Detail {
    pub key: String,
    pub value: Vec<Span>,
}

/// A value made of one span.
pub fn one_span(sp: Span) -> (v: Vec<Span>)
    ensures
        v@ == seq![sp],
{
    let mut v: Vec<Span> = Vec::new();
    v.push(sp);
    assert(v@ =~= seq![sp]);
    v
}

/// The byte length of a text (`str::len`).
pub open spec fn byte_len(s: Seq<char>) -> usize {
    vstd::utf8::encode_utf8(s).len() as usize
}

/// The width that keys of a detail tree are padded to with dots: that of
/// "Hostname".
pub open spec fn tree_key_width() -> nat {
    8
}

/// The tree branch for entry `i` of `n`.
pub open spec fn spec_branch(i: int, n: int) -> Seq<char> {
    if i + 1 == n {
        "└─"@
    } else {
        "├─"@
    }
}

/// Whether `l` is the tree line for entry `i` of `n` with `key` and `value`:
/// ` <branch> <key><dots>: <value>`.
pub open spec fn is_tree_line(l: Seq<Span>, i: int, n: int, key: Seq<char>, value: Seq<Span>) -> bool {
    let dots: nat = if tree_key_width() > byte_len(key) {
        (tree_key_width() - byte_len(key)) as nat
    } else {
        0
    };
    &&& l.len() == 7 + value.len()
    &&& shows(l[0], " "@, spec_tone(Tone::Plain))
    &&& shows(l[1], spec_branch(i, n), spec_tone(Tone::BrightBlack))
    &&& shows(l[2], " "@, spec_tone(Tone::Plain))
    &&& shows(l[3], key, spec_tone(Tone::TextDefault))
    &&& shows(l[4], spec_repeat("."@, dots), spec_tone(Tone::Separator))
    &&& shows(l[5], ":"@, spec_tone(Tone::Separator))
    &&& shows(l[6], " "@, spec_tone(Tone::Plain))
    &&& l.skip(7) == value
}

/// The tree branch for entry `i` of `n`.
pub fn branch(i: usize, n: usize) -> (r: &'static str)
    ensures
        r@ == spec_branch(i as int, n as int),
{
    if i < usize::MAX && i + 1 == n {
        "└─"
    } else {
        "├─"
    }
}

/// The tree line for one detail.
fn tree_line(i: usize, n: usize, d: Detail) -> (l: Vec<Span>)
    ensures
        is_tree_line(l@, i as int, n as int, d.key@, d.value@),
{
    let key_bytes = d.key.as_str().len();
    let dots_count = 8usize.saturating_sub(key_bytes);
    let mut l: Vec<Span> = Vec::new();
    l.push(lit_span(" ", tone(Tone::Plain)));
    l.push(lit_span(branch(i, n), tone(Tone::BrightBlack)));
    l.push(lit_span(" ", tone(Tone::Plain)));
    l.push(lit_span(d.key.as_str(), tone(Tone::TextDefault)));
    l.push(text_span(repeat_text(".", dots_count), tone(Tone::Separator)));
    l.push(lit_span(":", tone(Tone::Separator)));
    l.push(lit_span(" ", tone(Tone::Plain)));
    let ghost vv = d.value@;
    let mut value = d.value;
    l.append(&mut value);
    assert(byte_len(d.key@) == key_bytes);
    assert(shows(l@[4], spec_repeat("."@, dots_count as nat), spec_tone(Tone::Separator)));
    assert(l@.skip(7) =~= vv);
    l
}

/// The lines that show details as a tree, one per detail.
pub fn as_tree(details: Vec<Detail>) -> (lines: Vec<Vec<Span>>)
    ensures
        lines@.len() == details@.len(),
        forall|i: int|
            0 <= i < details@.len() ==> is_tree_line(
                #[trigger] lines@[i]@,
                i,
                details@.len() as int,
                details@[i].key@,
                details@[i].value@,
            ),
{
    let mut lines: Vec<Vec<Span>> = Vec::new();
    let n = details.len();
    let mut rest = details;
    let mut i: usize = 0;
    while i < n
        invariant
            n == details@.len(),
            i <= n,
            rest@ == details@.skip(i as int),
            lines@.len() == i,
            forall|k: int|
                0 <= k < i ==> is_tree_line(
                    #[trigger] lines@[k]@,
                    k,
                    n as int,
                    details@[k].key@,
                    details@[k].value@,
                ),
        decreases n - i,
    {
        let d = rest.remove(0);
        lines.push(tree_line(i, n, d));
        i = i + 1;
        assert(rest@ =~= details@.skip(i as int));
    }
    lines
}

/// The header line of a tree: `[<idx>] <name>`.
pub fn tree_head(idx: usize, name: &str) -> (l: Vec<Span>)
    ensures
        l@.len() == 5,
        shows(l@[0], "["@, spec_tone(Tone::Separator)),
        shows(l@[1], spec_decimal(idx as nat), spec_tone(Tone::Accent)),
        shows(l@[2], "]"@, spec_tone(Tone::Separator)),
        shows(l@[3], " "@, spec_tone(Tone::Plain)),
        shows(l@[4], name@, spec_tone(Tone::Primary)),
{
    let mut l: Vec<Span> = Vec::new();
    l.push(lit_span("[", tone(Tone::Separator)));
    l.push(text_span(decimal_text(idx as u128), tone(Tone::Accent)));
    l.push(lit_span("]", tone(Tone::Separator)));
    l.push(lit_span(" ", tone(Tone::Plain)));
    l.push(lit_span(name, tone(Tone::Primary)));
    l
}

/// The plain text of spans that all show text.
fn plain_text(spans: &Vec<Span>) -> (r: String)
    ensures
        r@ == line_text(spans@),
{
    let mut r = String::new();
    let mut i: usize = 0;
    while i < spans.len()
        invariant
            i <= spans@.len(),
            r@ == line_text(spans@.take(i as int)),
        decreases spans@.len() - i,
    {
        assert(spans@.take(i + 1).drop_last() =~= spans@.take(i as int));
        match &spans[i].content {
            Content::Text(t) => r.append(t.as_str()),
            Content::Redacted(_) => {},
        }
        i = i + 1;
    }
    assert(spans@.take(spans@.len() as int) =~= spans@);
    r
}

/// `spans` centered in `total_width` columns with unstyled copies of `fill`
/// before and after them.
pub fn center_spans(spans: Vec<Span>, fill: &str, total_width: usize) -> (l: Vec<Span>)
    ensures
        l@.len() == spans@.len() + 2,
        shows(
            l@[0],
            spec_repeat(
                fill@,
                center_pads(spec_text_width(line_text(spans@)) as nat, total_width as nat).0,
            ),
            spec_tone(Tone::Plain),
        ),
        l@.subrange(1, l@.len() - 1) == spans@,
        shows(
            l@[l@.len() - 1],
            spec_repeat(
                fill@,
                center_pads(spec_text_width(line_text(spans@)) as nat, total_width as nat).1,
            ),
            spec_tone(Tone::Plain),
        ),
{
    let text = plain_text(&spans);
    let (left, right) = pads_for(text.as_str(), total_width);
    let mut l: Vec<Span> = Vec::new();
    l.push(text_span(repeat_text(fill, left), tone(Tone::Plain)));
    let ghost sv = spans@;
    let mut spans = spans;
    l.append(&mut spans);
    l.push(text_span(repeat_text(fill, right), tone(Tone::Plain)));
    assert(l@.subrange(1, l@.len() - 1) =~= sv);
    l
}

/// The output settings: whether the banner is hidden, how quiet the output
/// is, and whether sensitive values are redacted.
#[derive(Clone, Copy, PartialEq, Eq, Structural, Debug)]
pub struct Print {
    pub no_banner: bool,
    pub q_level: u8,
    pub redact: bool,
}

/// Why hosts could not be shown.
#[derive(Clone, Copy, PartialEq, Eq, Structural, Debug)]
pub enum PrintError {
    /// The raw listing of `-qq` is not implemented.
    RawListingUnimplemented,
}

/// How the end of a discovery is reported.
#[derive(Debug)]
pub enum Summary {
    /// A divider, then the message centered.
    Centered { divider: String, line: Vec<Span> },
    /// A blank line, then the message as a success log.
    Logged(Vec<Span>),
}

/// How an empty result is reported.
#[derive(Debug)]
pub enum NoResults {
    /// The section header "ZERO HOSTS DETECTED" (the banner style of an
    /// empty result; the art that went under it is not part of this library).
    Banner(Vec<Span>),
    /// An error log with this message.
    Logged(&'static str),
}

/// The banner title for a version: `⟦ ZOND <major.minor> ⟧ `.
pub open spec fn spec_banner_title(version: Seq<char>) -> Seq<char> {
    "⟦ ZOND "@ + spec_display_version(version) + " ⟧ "@
}

/// The header text for a message: `⟦ <msg> ⟧` in upper case.
pub open spec fn spec_header_text(msg: Seq<char>) -> Seq<char> {
    spec_uppercase("⟦ "@ + msg + " ⟧"@)
}

/// Whether `l` is `text` centered across the report width with copies of
/// `fill`, the text in style `st`.
pub open spec fn is_centered_line(l: Seq<Span>, text: Seq<char>, st: Style, fill: Seq<char>) -> bool {
    let (left, right) = center_pads(spec_text_width(text) as nat, TOTAL_WIDTH as nat);
    &&& l.len() == 3
    &&& shows(l[0], spec_repeat(fill, left), spec_tone(Tone::Plain))
    &&& shows(l[1], text, st)
    &&& shows(l[2], spec_repeat(fill, right), spec_tone(Tone::Plain))
}

/// The spans of the discovery summary message.
pub open spec fn is_summary_message(l: Seq<Span>, hosts_len: usize, time_text: Seq<char>) -> bool {
    &&& l.len() == 4
    &&& shows(l[0], "Discovery Complete: "@, spec_tone(Tone::TextDefault))
    &&& shows(
        l[1],
        spec_decimal(hosts_len as nat) + " active hosts"@,
        Style { tone: Tone::Green, bold: true, italic: false, dimmed: false },
    )
    &&& shows(l[2], " identified in "@, spec_tone(Tone::TextDefault))
    &&& shows(l[3], time_text, Style { tone: Tone::Yellow, bold: true, italic: false, dimmed: false })
}

/// Whether `r` reports a finished discovery of `hosts_len` hosts that took
/// the time written `time_text`, at quiet level `q_level`: centered under a
/// divider when not quiet, a plain message to log otherwise.
pub open spec fn is_discovery_summary(r: Summary, q_level: u8, hosts_len: usize, time_text: Seq<char>) -> bool {
    &&& (q_level == 0 <==> r is Centered)
    &&& r matches Summary::Centered { divider, line } ==> divider@ == spec_centered(
        Seq::empty(),
        "═"@,
        TOTAL_WIDTH as nat,
    ) && line@.len() == 6 && is_summary_message(line@.subrange(1, 5), hosts_len, time_text)
        && shows(
        line@[0],
        spec_repeat(
            " "@,
            center_pads(spec_text_width(line_text(line@.subrange(1, 5))) as nat, TOTAL_WIDTH as nat).0,
        ),
        spec_tone(Tone::Plain),
    ) && shows(
        line@[5],
        spec_repeat(
            " "@,
            center_pads(spec_text_width(line_text(line@.subrange(1, 5))) as nat, TOTAL_WIDTH as nat).1,
        ),
        spec_tone(Tone::Plain),
    )
    &&& r matches Summary::Logged(msg) ==> is_summary_message(msg@, hosts_len, time_text)
}

/// Whether `r` reports an empty result under the settings `p`: the header
/// "ZERO HOSTS DETECTED" when neither quiet nor without banner, otherwise
/// the message "Scan completed: 0 devices responded." for an error log.
pub open spec fn is_no_results(r: NoResults, p: Print) -> bool {
    &&& (p.q_level == 0 && !p.no_banner) <==> r is Banner
    &&& r matches NoResults::Banner(l) ==> is_centered_line(
        l@,
        spec_header_text("ZERO HOSTS DETECTED"@),
        spec_tone(Tone::BrightGreen),
        "─"@,
    )
    &&& r matches NoResults::Logged(m) ==> m@ == "Scan completed: 0 devices responded."@
}

/// Whether `b` is the block of the host `h` at position `i` of `n` listed
/// hosts: its lines, then a blank line unless it is the last.
pub open spec fn is_listed_host_block(b: Seq<Vec<Span>>, h: Host, i: int, n: int, redact: bool) -> bool {
    let blank: int = if i + 1 != n {
        1
    } else {
        0
    };
    &&& b.len() >= blank
    &&& is_host_block(b.take(b.len() - blank), h, i as usize, redact)
    &&& blank == 1 ==> b.last()@.len() == 0
}

impl Print {
    /// The output settings taken from the run configuration.
    pub fn new(cfg: &Config) -> (p: Print)
        ensures
            p.no_banner == cfg.no_banner,
            p.q_level == cfg.quiet,
            p.redact == cfg.redact,
    {
        Print { no_banner: cfg.no_banner, q_level: cfg.quiet, redact: cfg.redact }
    }

    /// The banner's title line, unless the banner is hidden or the output is
    /// quiet. (The ASCII art that followed the title is not part of this
    /// library.)
    pub fn banner(&self, version: &str) -> (r: Option<Vec<Span>>)
        ensures
            r is None <==> (self.no_banner || self.q_level > 0),
            r is Some ==> is_centered_line(
                r->0@,
                spec_banner_title(version@),
                Style { tone: Tone::BrightGreen, bold: true, italic: false, dimmed: false },
                "═"@,
            ),
    {
        if self.no_banner || self.q_level > 0 {
            return None;
        }
        let display = display_version(version);
        let mut title = "⟦ ZOND ".to_owned();
        title.append(display.as_str());
        title.append(" ⟧ ");
        Some(centered_line(title.as_str(), bold(Tone::BrightGreen), "═", TOTAL_WIDTH))
    }

    /// A section header: the message in upper case, centered with `─`; a
    /// blank line when the output is quiet.
    pub fn header(&self, msg: &str) -> (l: Vec<Span>)
        ensures
            self.q_level > 0 ==> l@.len() == 0,
            self.q_level == 0 ==> is_centered_line(
                l@,
                spec_header_text(msg@),
                spec_tone(Tone::BrightGreen),
                "─"@,
            ),
    {
        if self.q_level > 0 {
            return Vec::new();
        }
        let mut t = "⟦ ".to_owned();
        t.append(msg);
        t.append(" ⟧");
        let upper = to_uppercase(t.as_str());
        centered_line(upper.as_str(), tone(Tone::BrightGreen), "─", TOTAL_WIDTH)
    }

    /// The blocks of lines that show the hosts, in order, each followed by a
    /// blank line unless it is the last; `-qq` is refused.
    pub fn hosts(&self, hosts: &Vec<Host>) -> (r: Result<Vec<Vec<Vec<Span>>>, PrintError>)
        ensures
            r is Err <==> self.q_level == 2 && hosts@.len() > 0,
            r matches Ok(blocks) ==> blocks@.len() == hosts@.len() && forall|i: int|
                0 <= i < hosts@.len() ==> is_listed_host_block(
                    #[trigger] blocks@[i]@,
                    hosts@[i],
                    i,
                    hosts@.len() as int,
                    self.redact,
                ),
    {
        let n = hosts.len();
        let mut blocks: Vec<Vec<Vec<Span>>> = Vec::new();
        let mut i: usize = 0;
        while i < n
            invariant
                n == hosts@.len(),
                i <= n,
                i > 0 ==> self.q_level != 2,
                blocks@.len() == i,
                forall|k: int|
                    0 <= k < i ==> is_listed_host_block(
                        #[trigger] blocks@[k]@,
                        hosts@[k],
                        k,
                        n as int,
                        self.redact,
                    ),
            decreases n - i,
        {
            if self.q_level == 2 {
                return Err(PrintError::RawListingUnimplemented);
            }
            let mut block = hosts[i].print(i, self.redact);
            let ghost body = block@;
            if i + 1 != n {
                block.push(Vec::new());
                assert(block@.take(block@.len() - 1) =~= body);
            } else {
                assert(block@.take(block@.len() - 0) =~= body);
            }
            blocks.push(block);
            i = i + 1;
        }
        Ok(blocks)
    }

    /// The report of a finished discovery of `hosts_len` hosts that took the
    /// time written `time_text`.
    pub fn discovery_summary(&self, hosts_len: usize, time_text: &str) -> (r: Summary)
        ensures
            is_discovery_summary(r, self.q_level, hosts_len, time_text@),
    {
        let mut msg: Vec<Span> = Vec::new();
        msg.push(lit_span("Discovery Complete: ", tone(Tone::TextDefault)));
        let mut count = decimal_text(hosts_len as u128);
        count.append(" active hosts");
        msg.push(text_span(count, bold(Tone::Green)));
        msg.push(lit_span(" identified in ", tone(Tone::TextDefault)));
        msg.push(lit_span(time_text, bold(Tone::Yellow)));
        if self.q_level == 0 {
            let ghost mv = msg@;
            let line = center_spans(msg, " ", TOTAL_WIDTH);
            assert(line@.subrange(1, 5) == mv);
            Summary::Centered { divider: divider(), line }
        } else {
            Summary::Logged(msg)
        }
    }

    /// How an empty result is reported: the header "ZERO HOSTS DETECTED"
    /// when neither quiet nor without banner; an error log otherwise.
    pub fn no_results(&self) -> (r: NoResults)
        ensures
            is_no_results(r, *self),
    {
        if self.q_level == 0 && !self.no_banner {
            return NoResults::Banner(self.header("ZERO HOSTS DETECTED"));
        }
        NoResults::Logged("Scan completed: 0 devices responded.")
    }

    /// The closing line of the output (`═` across the report width), unless
    /// the output is quiet.
    pub fn end_of_program(&self) -> (r: Option<Span>)
        ensures
            r is None <==> self.q_level > 0,
            r matches Some(sp) ==> shows(
                sp,
                spec_repeat("═"@, TOTAL_WIDTH as nat),
                spec_tone(Tone::Separator),
            ),
    {
        if self.q_level > 0 {
            return None;
        }
        Some(text_span(repeat_text("═", TOTAL_WIDTH), tone(Tone::Separator)))
    }
}

} // verus!

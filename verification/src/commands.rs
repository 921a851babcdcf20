//! The reports of the `discover` and `scan` commands once their hosts are
//! known: an empty result, or the hosts sorted by address with a summary.

use vstd::prelude::*;
use crate::host::{is_stable_sort, sort_hosts, Host};
use crate::layout::{is_centered_line, is_discovery_summary, is_listed_host_block, is_no_results, spec_header_text, NoResults, Print, PrintError, Summary};
use crate::style::{spec_tone, Span, Tone};

verus! {

/// What a finished discovery or scan reports.
#[derive(Debug)]
pub enum Report {
    /// No host answered.
    NoResults(NoResults),
    /// The section header, the hosts sorted by address with one block of
    /// lines each, and the summary.
    Hosts { header: Vec<Span>, hosts: Vec<Host>, blocks: Vec<Vec<Vec<Span>>>, summary: Summary },
}

/// Whether `header`, `sorted`, `blocks` and `summary` report the hosts
/// `hosts` under the section title `title`: the hosts sorted stably by
/// address, one block of lines each, and the summary.
pub open spec fn reports_hosts(
    header: Seq<Span>,
    sorted: Seq<Host>,
    blocks: Seq<Vec<Vec<Span>>>,
    summary: Summary,
    hosts: Seq<Host>,
    p: Print,
    title: Seq<char>,
    time_text: Seq<char>,
) -> bool {
    &&& hosts.len() > 0
    &&& exists|perm: Seq<int>| is_stable_sort(hosts, sorted, perm)
    &&& blocks.len() == sorted.len()
    &&& forall|i: int|
        0 <= i < sorted.len() ==> is_listed_host_block(
            #[trigger] blocks[i]@,
            sorted[i],
            i,
            sorted.len() as int,
            p.redact,
        )
    &&& p.q_level > 0 ==> header.len() == 0
    &&& p.q_level == 0 ==> is_centered_line(
        header,
        spec_header_text(title),
        spec_tone(Tone::BrightGreen),
        "─"@,
    )
    &&& is_discovery_summary(summary, p.q_level, hosts.len() as usize, time_text)
}

/// The report for the hosts found, under the section title `title`.
pub fn report(p: &Print, hosts: Vec<Host>, title: &str, time_text: &str) -> (r: Result<Report, PrintError>)
    ensures
        hosts@.len() == 0 ==> r matches Ok(Report::NoResults(_)),
        r matches Ok(Report::NoResults(nr)) ==> hosts@.len() == 0 && is_no_results(nr, *p),
        r is Err <==> hosts@.len() > 0 && p.q_level == 2,
        r matches Ok(Report::Hosts { header, hosts: sorted, blocks, summary }) ==> reports_hosts(
            header@,
            sorted@,
            blocks@,
            summary,
            hosts@,
            *p,
            title@,
            time_text@,
        ),
{
    if hosts.len() == 0 {
        return Ok(Report::NoResults(p.no_results()));
    }
    let header = p.header(title);
    let ghost orig = hosts@;
    let sorted = sort_hosts(hosts);
    let blocks = match p.hosts(&sorted) {
        Ok(b) => b,
        Err(e) => return Err(e),
    };
    let summary = p.discovery_summary(sorted.len(), time_text);
    assert(reports_hosts(header@, sorted@, blocks@, summary, orig, *p, title@, time_text@));
    Ok(Report::Hosts { header, hosts: sorted, blocks, summary })
}

/// The report of a host discovery.
pub fn discover_report(p: &Print, hosts: Vec<Host>, time_text: &str) -> (r: Result<Report, PrintError>)
    ensures
        hosts@.len() == 0 ==> r matches Ok(Report::NoResults(_)),
        r matches Ok(Report::NoResults(nr)) ==> hosts@.len() == 0 && is_no_results(nr, *p),
        r is Err <==> hosts@.len() > 0 && p.q_level == 2,
        r matches Ok(Report::Hosts { header, hosts: sorted, blocks, summary }) ==> reports_hosts(
            header@,
            sorted@,
            blocks@,
            summary,
            hosts@,
            *p,
            "Network Discovery"@,
            time_text@,
        ),
{
    report(p, hosts, "Network Discovery", time_text)
}

/// The report of a port scan.
pub fn scan_report(p: &Print, hosts: Vec<Host>, time_text: &str) -> (r: Result<Report, PrintError>)
    ensures
        hosts@.len() == 0 ==> r matches Ok(Report::NoResults(_)),
        r matches Ok(Report::NoResults(nr)) ==> hosts@.len() == 0 && is_no_results(nr, *p),
        r is Err <==> hosts@.len() > 0 && p.q_level == 2,
        r matches Ok(Report::Hosts { header, hosts: sorted, blocks, summary }) ==> reports_hosts(
            header@,
            sorted@,
            blocks@,
            summary,
            hosts@,
            *p,
            "Network Scanner"@,
            time_text@,
        ),
{
    report(p, hosts, "Network Scanner", time_text)
}

} // verus!

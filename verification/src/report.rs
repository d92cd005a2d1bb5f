//! The report: comma-separated values, one grepable line per host,
//! or a table for people to read. JSON is left to a serialiser.

use vstd::prelude::*;
use vstd::utf8::{decode_utf8, encode_utf8, is_char_boundary};
use vstd::string::StringSliceAdditionalSpecFns;
use crate::collect::views;
use crate::results::{port_info, port_record, PortStatus, ResultView, ScanResult};
use crate::text::{chars_of, decimal, digit_char, push_char, push_decimal};

verus! {

broadcast use vstd::string::group_string_axioms;

/// The formats a report can take.
#[derive(PartialEq, Eq, Structural, Clone, Copy, Debug)]
pub enum ReportFormat {
    Json,
    Csv,
    Grepable,
    Table,
}

/// The format that a format name selects: `json`, `csv` and `grepable`
/// by name, the table for any other name.
pub open spec fn format_named(name: Seq<char>) -> ReportFormat {
    if name == "json"@ {
        ReportFormat::Json
    } else if name == "csv"@ {
        ReportFormat::Csv
    } else if name == "grepable"@ {
        ReportFormat::Grepable
    } else {
        ReportFormat::Table
    }
}

/// The format that a format name selects.
pub fn report_format(name: &str) -> (f: ReportFormat)
    ensures
        f == format_named(name@),
{
    let s = String::from_str(name);
    if s == String::from_str("json") {
        ReportFormat::Json
    } else if s == String::from_str("csv") {
        ReportFormat::Csv
    } else if s == String::from_str("grepable") {
        ReportFormat::Grepable
    } else {
        ReportFormat::Table
    }
}

/// The text of an optional field: the field, or nothing.
pub open spec fn opt_text(o: Option<Seq<char>>) -> Seq<char> {
    match o {
        Some(t) => t,
        None => Seq::empty(),
    }
}

/// A time in nanoseconds rounded to whole milliseconds, halves up.
///
/// The rounding is exact on the integer count of nanoseconds. Printing the
/// same time as a binary floating-point number of seconds with three
/// decimals can differ on an exact half millisecond: 4.5 ms is 0.0045 s,
/// whose nearest binary value lies just below the half, so such printing
/// gives 0.004 where this gives 0.005.
pub open spec fn millis(ns: u64) -> nat {
    (ns / 1_000_000 + if ns % 1_000_000 >= 500_000 {
        1int
    } else {
        0int
    }) as nat
}

/// Three decimal digits of `n < 1000`, with leading zeros.
pub open spec fn three_digits(n: nat) -> Seq<char> {
    seq![digit_char(n / 100), digit_char((n / 10) % 10), digit_char(n % 10)]
}

/// A time in nanoseconds as seconds with three decimals, rounded as
/// `millis` rounds (an exact half millisecond goes up).
pub open spec fn seconds_text(ns: u64) -> Seq<char> {
    decimal(millis(ns) / 1000) + "."@ + three_digits(millis(ns) % 1000)
}

/// One CSV line.
pub open spec fn csv_row(r: ResultView) -> Seq<char> {
    r.ip + ","@ + decimal(r.port as nat) + ","@ + r.status.name() + ","@ + r.service + ","@
        + ttl_text(r.ttl) + ","@ + opt_text(r.os_guess) + ","@ + opt_text(r.version) + ","@
        + seconds_text(r.timestamp) + "\n"@
}

/// A TTL in decimal, or nothing.
pub open spec fn ttl_text(t: Option<u8>) -> Seq<char> {
    match t {
        Some(t) => decimal(t as nat),
        None => Seq::empty(),
    }
}

/// The CSV lines of `rs`.
pub open spec fn csv_rows(rs: Seq<ResultView>) -> Seq<char>
    decreases rs.len(),
{
    if rs.len() == 0 {
        Seq::empty()
    } else {
        csv_rows(rs.drop_last()) + csv_row(rs.last())
    }
}

/// The CSV report: a header line, then one line per finding.
pub open spec fn csv_text(rs: Seq<ResultView>) -> Seq<char> {
    "ip,port,status,service,ttl,os,version,timestamp\n"@ + csv_rows(rs)
}

/// The entry of an open finding in a grepable line: port, service, state,
/// version and operating system, each followed by `/`.
pub open spec fn port_entry(r: ResultView) -> Seq<char> {
    decimal(r.port as nat) + "/"@ + r.service + "/open/"@ + opt_text(r.version) + "/"@ + opt_text(
        r.os_guess,
    ) + "/"@
}

/// The addresses that have an open finding, each once, in the order of
/// their first open finding.
pub open spec fn open_hosts(rs: Seq<ResultView>) -> Seq<Seq<char>>
    decreases rs.len(),
{
    if rs.len() == 0 {
        Seq::empty()
    } else {
        let h = open_hosts(rs.drop_last());
        let r = rs.last();
        if r.status == PortStatus::Open && !h.contains(r.ip) {
            h.push(r.ip)
        } else {
            h
        }
    }
}

/// The entries of the open findings for `ip`, in order.
pub open spec fn host_entries(rs: Seq<ResultView>, ip: Seq<char>) -> Seq<Seq<char>>
    decreases rs.len(),
{
    if rs.len() == 0 {
        Seq::empty()
    } else {
        let e = host_entries(rs.drop_last(), ip);
        let r = rs.last();
        if r.status == PortStatus::Open && r.ip == ip {
            e.push(port_entry(r))
        } else {
            e
        }
    }
}

/// `es` joined with `, `.
pub open spec fn join_entries(es: Seq<Seq<char>>) -> Seq<char>
    decreases es.len(),
{
    if es.len() == 0 {
        Seq::empty()
    } else if es.len() == 1 {
        es[0]
    } else {
        join_entries(es.drop_last()) + ", "@ + es.last()
    }
}

/// The grepable line of a host: its address and the entries of all its
/// open ports.
pub open spec fn grep_line(rs: Seq<ResultView>, ip: Seq<char>) -> Seq<char> {
    "Host: "@ + ip + "\tPorts: "@ + join_entries(host_entries(rs, ip)) + "\n"@
}

/// The grepable lines of the hosts `hs`.
pub open spec fn grep_lines(rs: Seq<ResultView>, hs: Seq<Seq<char>>) -> Seq<char>
    decreases hs.len(),
{
    if hs.len() == 0 {
        Seq::empty()
    } else {
        grep_lines(rs, hs.drop_last()) + grep_line(rs, hs.last())
    }
}

/// The grepable report: one line per host with an open port, in the order
/// of the hosts' first open findings; closed and filtered findings add
/// nothing.
pub open spec fn grep_text(rs: Seq<ResultView>) -> Seq<char> {
    grep_lines(rs, open_hosts(rs))
}

/// `n` spaces.
pub open spec fn spaces(n: nat) -> Seq<char> {
    Seq::new(n, |i: int| ' ')
}

/// `s` padded with spaces at its end to `w` characters.
pub open spec fn pad_end(s: Seq<char>, w: nat) -> Seq<char> {
    if s.len() < w {
        s + spaces((w - s.len()) as nat)
    } else {
        s
    }
}

/// `s` padded with spaces at its start to `w` characters.
pub open spec fn pad_start(s: Seq<char>, w: nat) -> Seq<char> {
    if s.len() < w {
        spaces((w - s.len()) as nat) + s
    } else {
        s
    }
}

/// The mark of a state in the table.
pub open spec fn status_mark(s: PortStatus) -> Seq<char> {
    match s {
        PortStatus::Open => "+"@,
        PortStatus::Closed => "-"@,
        PortStatus::Filtered => "?"@,
    }
}

/// The upper-case name of a state.
pub open spec fn status_upper(s: PortStatus) -> Seq<char> {
    match s {
        PortStatus::Open => "OPEN"@,
        PortStatus::Closed => "CLOSED"@,
        PortStatus::Filtered => "FILTERED"@,
    }
}

/// A CVSS score kept in tenths, with one decimal; a missing score is `0.0`.
pub open spec fn cvss_text(t: Option<u8>) -> Seq<char> {
    match t {
        Some(t) => decimal((t / 10) as nat) + "."@ + seq![digit_char((t % 10) as nat)],
        None => "0.0"@,
    }
}

/// A banner as the table shows it: cut after its first 120 bytes, with
/// `...` added, when it is longer.
pub open spec fn shown_banner(b: Seq<char>) -> Seq<char> {
    if encode_utf8(b).len() > 120 {
        decode_utf8(encode_utf8(b).subrange(0, 120)) + "..."@
    } else {
        b
    }
}

/// Whether the table can cut every long banner of `rs` after 120 bytes:
/// that position must fall between two characters.
pub open spec fn banners_cut_cleanly(rs: Seq<ResultView>) -> bool {
    forall|i: int|
        0 <= i < rs.len() ==> (#[trigger] rs[i].banner matches Some(b) ==> (encode_utf8(b).len()
            > 120 ==> is_char_boundary(encode_utf8(b), 120)))
}

/// The TTL line of a table entry.
pub open spec fn ttl_line(r: ResultView) -> Seq<char> {
    match r.ttl {
        Some(t) => "    TTL: "@ + decimal(t as nat) + (match r.os_guess {
            Some(o) => " ("@ + o + ")"@,
            None => Seq::empty(),
        }) + "\n"@,
        None => Seq::empty(),
    }
}

/// The version line of a table entry; an `unknown` version is not shown.
pub open spec fn version_line(r: ResultView) -> Seq<char> {
    match r.version {
        Some(v) => if v != "unknown"@ {
            "    Version: "@ + v + "\n"@
        } else {
            Seq::empty()
        },
        None => Seq::empty(),
    }
}

/// The banner line of a table entry.
pub open spec fn banner_line(r: ResultView) -> Seq<char> {
    match r.banner {
        Some(b) => "    Banner: "@ + shown_banner(b) + "\n"@,
        None => Seq::empty(),
    }
}

/// The port-database line of a table entry, for open ports on request.
pub open spec fn info_line(r: ResultView, show_info: bool) -> Seq<char> {
    if show_info && r.status == PortStatus::Open {
        match port_record(r.port) {
            Some(i) => "    Info: "@ + i.description + " | Risk: "@ + i.security_risk
                + " | CVSS: "@ + cvss_text(i.cvss_tenths) + "\n"@,
            None => Seq::empty(),
        }
    } else {
        Seq::empty()
    }
}

/// The first line of a table entry.
pub open spec fn table_head_line(r: ResultView) -> Seq<char> {
    "["@ + status_mark(r.status) + "] "@ + pad_end(r.ip, 15) + " "@ + pad_start(
        decimal(r.port as nat),
        5,
    ) + "/tcp  "@ + pad_end(status_upper(r.status), 8) + "  "@ + r.service + "\n"@
}

/// The lines of a table entry that follow its first line.
pub open spec fn detail_lines(r: ResultView, show_info: bool) -> Seq<char> {
    ttl_line(r) + version_line(r) + banner_line(r) + info_line(r, show_info)
}

/// A table entry.
pub open spec fn table_row(r: ResultView, show_info: bool) -> Seq<char> {
    table_head_line(r) + detail_lines(r, show_info)
}

/// The table entries of `rs`.
pub open spec fn table_rows(rs: Seq<ResultView>, show_info: bool) -> Seq<char>
    decreases rs.len(),
{
    if rs.len() == 0 {
        Seq::empty()
    } else {
        table_rows(rs.drop_last(), show_info) + table_row(rs.last(), show_info)
    }
}

/// The title of the table.
pub open spec fn table_title() -> Seq<char> {
    "╔══════════════════════════════════════════════════════════╗\n"@
        + "║                     SCAN RESULTS                        ║\n"@
        + "╚══════════════════════════════════════════════════════════╝\n"@
}

/// The table report.
pub open spec fn table_text(rs: Seq<ResultView>, show_info: bool) -> Seq<char> {
    table_title() + table_rows(rs, show_info)
}

/// The report in format `f`; JSON is not rendered here.
pub open spec fn report_text(rs: Seq<ResultView>, f: ReportFormat, show_info: bool) -> Seq<char> {
    match f {
        ReportFormat::Csv => csv_text(rs),
        ReportFormat::Grepable => grep_text(rs),
        _ => table_text(rs, show_info),
    }
}

proof fn lemma_concat_assoc(a: Seq<char>, b: Seq<char>, c: Seq<char>)
    ensures
        a + b + c == a + (b + c),
{
    assert(a + b + c =~= a + (b + c));
}

/// Appends a time in nanoseconds as seconds with three decimals.
fn push_seconds(out: &mut String, ns: u64)
    ensures
        final(out)@ == old(out)@ + seconds_text(ns),
{
    let ms: u64 = ns / 1_000_000 + if ns % 1_000_000 >= 500_000 {
        1
    } else {
        0
    };
    assert(ms == millis(ns));
    push_decimal(out, ms / 1000);
    out.append(".");
    let f = ms % 1000;
    push_char(out, ((f / 100) as u8 + 48) as char);
    push_char(out, (((f / 10) % 10) as u8 + 48) as char);
    push_char(out, ((f % 10) as u8 + 48) as char);
    assert(out@ =~= old(out)@ + seconds_text(ns));
}

/// Appends an optional field, or nothing.
fn push_opt(out: &mut String, o: &Option<String>)
    ensures
        final(out)@ == old(out)@ + opt_text(o.deep_view()),
{
    match o {
        Some(t) => out.append(t.as_str()),
        None => {
            assert(old(out)@ + opt_text(o.deep_view()) =~= old(out)@);
        },
    }
}

/// Appends a TTL in decimal, or nothing.
fn push_ttl(out: &mut String, t: Option<u8>)
    ensures
        final(out)@ == old(out)@ + ttl_text(t),
{
    match t {
        Some(t) => push_decimal(out, t as u64),
        None => {
            assert(old(out)@ + ttl_text(None) =~= old(out)@);
        },
    }
}

/// Appends the CSV line of `r`.
fn push_csv_row(out: &mut String, r: &ScanResult)
    ensures
        final(out)@ == old(out)@ + csv_row(r@),
{
    let mut row = r.ip.clone();
    row.append(",");
    push_decimal(&mut row, r.port as u64);
    row.append(",");
    let st = r.status.to_string();
    row.append(st.as_str());
    row.append(",");
    row.append(r.service.as_str());
    row.append(",");
    push_ttl(&mut row, r.ttl);
    row.append(",");
    push_opt(&mut row, &r.os_guess);
    row.append(",");
    push_opt(&mut row, &r.version);
    row.append(",");
    push_seconds(&mut row, r.timestamp);
    row.append("\n");
    assert(row@ == csv_row(r@));
    out.append(row.as_str());
}

/// Appends the entry of an open finding.
fn push_port_entry(out: &mut String, r: &ScanResult)
    ensures
        final(out)@ == old(out)@ + port_entry(r@),
{
    let mut e = String::new();
    push_decimal(&mut e, r.port as u64);
    assert(e@ =~= decimal(r.port as nat));
    e.append("/");
    e.append(r.service.as_str());
    e.append("/open/");
    push_opt(&mut e, &r.version);
    e.append("/");
    push_opt(&mut e, &r.os_guess);
    e.append("/");
    assert(e@ == port_entry(r@));
    out.append(e.as_str());
}

/// The addresses that have an open finding, each once, in order.
fn open_host_list(results: &[ScanResult]) -> (hs: Vec<String>)
    ensures
        hs@.map_values(|t: String| t@) == open_hosts(views(results@)),
{
    let ghost rs = views(results@);
    let mut hs: Vec<String> = Vec::new();
    let mut i: usize = 0;
    assert(rs.take(0) =~= Seq::<ResultView>::empty());
    assert(hs@.map_values(|t: String| t@) =~= Seq::<Seq<char>>::empty());
    while i < results.len()
        invariant
            i <= results.len(),
            rs == views(results@),
            hs@.map_values(|t: String| t@) == open_hosts(rs.take(i as int)),
        decreases results.len() - i,
    {
        let ghost hv = hs@.map_values(|t: String| t@);
        proof {
            assert(rs.take(i + 1).drop_last() =~= rs.take(i as int));
            assert(rs.take(i + 1).last() == results@[i as int]@);
        }
        if results[i].status == PortStatus::Open {
            let mut j: usize = 0;
            while j < hs.len() && !(hs[j] == results[i].ip)
                invariant
                    j <= hs.len(),
                    i < results.len(),
                    hv == hs@.map_values(|t: String| t@),
                    forall|k: int| 0 <= k < j ==> hv[k] != results@[i as int].ip@,
                decreases hs.len() - j,
            {
                j = j + 1;
            }
            if j == hs.len() {
                proof {
                    if hv.contains(results@[i as int].ip@) {
                        let k = choose|k: int| 0 <= k < hv.len() && hv[k] == results@[i as int].ip@;
                        assert(hv[k] != results@[i as int].ip@);
                    }
                }
                let ip = results[i].ip.clone();
                hs.push(ip);
                assert(hs@.map_values(|t: String| t@) =~= hv.push(results@[i as int].ip@));
            } else {
                assert(hv[j as int] == results@[i as int].ip@);
                assert(hv.contains(results@[i as int].ip@));
            }
        }
        i = i + 1;
    }
    assert(rs.take(i as int) =~= rs);
    hs
}

/// The grepable line of host `ip`.
fn grep_line_for(results: &[ScanResult], ip: &String) -> (line: String)
    ensures
        line@ == grep_line(views(results@), ip@),
{
    let ghost rs = views(results@);
    let mut entries = String::new();
    let mut n: usize = 0;
    let mut i: usize = 0;
    assert(rs.take(0) =~= Seq::<ResultView>::empty());
    while i < results.len()
        invariant
            i <= results.len(),
            n <= i,
            rs == views(results@),
            n == host_entries(rs.take(i as int), ip@).len(),
            entries@ == join_entries(host_entries(rs.take(i as int), ip@)),
        decreases results.len() - i,
    {
        let ghost es = host_entries(rs.take(i as int), ip@);
        proof {
            assert(rs.take(i + 1).drop_last() =~= rs.take(i as int));
            assert(rs.take(i + 1).last() == results@[i as int]@);
        }
        if results[i].status == PortStatus::Open && results[i].ip == *ip {
            let ghost e = port_entry(results@[i as int]@);
            assert(es.push(e).drop_last() =~= es);
            if n > 0 {
                entries.append(", ");
            }
            push_port_entry(&mut entries, &results[i]);
            proof {
                if n == 0 {
                    assert(entries@ =~= join_entries(es.push(e)));
                }
            }
            n = n + 1;
        }
        i = i + 1;
    }
    assert(rs.take(i as int) =~= rs);
    let mut line = String::from_str("Host: ");
    line.append(ip.as_str());
    line.append("\tPorts: ");
    line.append(entries.as_str());
    line.append("\n");
    line
}

/// Appends `n` spaces.
fn push_spaces(out: &mut String, n: usize)
    ensures
        final(out)@ == old(out)@ + spaces(n as nat),
{
    let mut i: usize = 0;
    while i < n
        invariant
            i <= n,
            out@ == old(out)@ + spaces(i as nat),
        decreases n - i,
    {
        push_char(out, ' ');
        i = i + 1;
        assert(out@ =~= old(out)@ + spaces(i as nat));
    }
}

/// Appends `s` padded at its end to `w` characters.
fn push_pad_end(out: &mut String, s: &str, w: usize)
    ensures
        final(out)@ == old(out)@ + pad_end(s@, w as nat),
{
    let n = chars_of(s).len();
    out.append(s);
    if n < w {
        push_spaces(out, w - n);
        assert(out@ =~= old(out)@ + pad_end(s@, w as nat));
    }
}

/// Appends the mark of a state.
fn push_status_mark(out: &mut String, st: PortStatus)
    ensures
        final(out)@ == old(out)@ + status_mark(st),
{
    match st {
        PortStatus::Open => out.append("+"),
        PortStatus::Closed => out.append("-"),
        PortStatus::Filtered => out.append("?"),
    }
}

/// Appends the upper-case name of a state, padded to 8 characters.
fn push_status_field(out: &mut String, st: PortStatus)
    ensures
        final(out)@ == old(out)@ + pad_end(status_upper(st), 8),
{
    match st {
        PortStatus::Open => push_pad_end(out, "OPEN", 8),
        PortStatus::Closed => push_pad_end(out, "CLOSED", 8),
        PortStatus::Filtered => push_pad_end(out, "FILTERED", 8),
    }
}

/// Appends a port number right-aligned in 5 characters.
fn push_port_field(out: &mut String, port: u16)
    ensures
        final(out)@ == old(out)@ + pad_start(decimal(port as nat), 5),
{
    let mut port_text = String::new();
    push_decimal(&mut port_text, port as u64);
    assert(port_text@ =~= decimal(port as nat));
    let n = chars_of(port_text.as_str()).len();
    if n < 5 {
        push_spaces(out, 5 - n);
    }
    out.append(port_text.as_str());
    assert(out@ =~= old(out)@ + pad_start(decimal(port as nat), 5));
}

/// Appends the first line of a table entry.
fn push_head_line(out: &mut String, r: &ScanResult)
    ensures
        final(out)@ == old(out)@ + table_head_line(r@),
{
    out.append("[");
    push_status_mark(out, r.status);
    out.append("] ");
    push_pad_end(out, r.ip.as_str(), 15);
    out.append(" ");
    push_port_field(out, r.port);
    out.append("/tcp  ");
    push_status_field(out, r.status);
    out.append("  ");
    out.append(r.service.as_str());
    out.append("\n");
    assert(out@ =~= old(out)@ + table_head_line(r@));
}

/// Appends a CVSS score kept in tenths, with one decimal.
fn push_cvss(out: &mut String, t: Option<u8>)
    ensures
        final(out)@ == old(out)@ + cvss_text(t),
{
    match t {
        Some(t) => {
            push_decimal(out, (t / 10) as u64);
            out.append(".");
            push_char(out, ((t % 10) + 48) as char);
            assert(out@ =~= old(out)@ + cvss_text(Some(t)));
        },
        None => out.append("0.0"),
    }
}

/// A CVSS score kept in tenths, with one decimal.
pub fn cvss_string(t: Option<u8>) -> (r: String)
    ensures
        r@ == cvss_text(t),
{
    let mut out = String::new();
    push_cvss(&mut out, t);
    assert(out@ =~= cvss_text(t));
    out
}

/// Appends a banner as the table shows it.
fn push_shown_banner(out: &mut String, b: &String)
    requires
        encode_utf8(b@).len() > 120 ==> is_char_boundary(encode_utf8(b@), 120),
    ensures
        final(out)@ == old(out)@ + shown_banner(b@),
{
    let s = b.as_str();
    let nbytes = s.as_bytes().len();
    if nbytes > 120 {
        let (a, _rest) = s.split_at(120);
        proof {
            assert(s@ == b@);
            assert(s.spec_bytes() == encode_utf8(b@));
            vstd::utf8::encode_utf8_decode_utf8(a@);
            assert(a.spec_bytes() == encode_utf8(a@));
            assert(a.spec_bytes() == encode_utf8(b@).subrange(0, 120));
            assert(a@ == decode_utf8(encode_utf8(b@).subrange(0, 120)));
        }
        let mut cut = String::from_str(a);
        cut.append("...");
        assert(cut@ == shown_banner(b@));
        out.append(cut.as_str());
    } else {
        assert(s@ == b@);
        assert(s.spec_bytes() == encode_utf8(b@));
        out.append(s);
    }
}

/// Appends the TTL line of a table entry.
fn push_ttl_line(out: &mut String, r: &ScanResult)
    ensures
        final(out)@ == old(out)@ + ttl_line(r@),
{
    match r.ttl {
        Some(t) => {
            let mut line = String::from_str("    TTL: ");
            push_decimal(&mut line, t as u64);
            match &r.os_guess {
                Some(o) => {
                    let mut part = String::from_str(" (");
                    part.append(o.as_str());
                    part.append(")");
                    line.append(part.as_str());
                },
                None => {
                    assert(line@ + Seq::<char>::empty() =~= line@);
                },
            }
            line.append("\n");
            assert(line@ == ttl_line(r@));
            out.append(line.as_str());
        },
        None => {
            assert(old(out)@ + ttl_line(r@) =~= old(out)@);
        },
    }
}

/// Appends the version line of a table entry.
fn push_version_line(out: &mut String, r: &ScanResult)
    ensures
        final(out)@ == old(out)@ + version_line(r@),
{
    match &r.version {
        Some(v) => {
            if *v != String::from_str("unknown") {
                let mut line = String::from_str("    Version: ");
                line.append(v.as_str());
                line.append("\n");
                out.append(line.as_str());
            } else {
                assert(old(out)@ + version_line(r@) =~= old(out)@);
            }
        },
        None => {
            assert(old(out)@ + version_line(r@) =~= old(out)@);
        },
    }
}

/// Appends the banner line of a table entry.
fn push_banner_line(out: &mut String, r: &ScanResult)
    requires
        r@.banner matches Some(b) ==> (encode_utf8(b).len() > 120 ==> is_char_boundary(
            encode_utf8(b),
            120,
        )),
    ensures
        final(out)@ == old(out)@ + banner_line(r@),
{
    match &r.banner {
        Some(b) => {
            let mut line = String::from_str("    Banner: ");
            push_shown_banner(&mut line, b);
            line.append("\n");
            out.append(line.as_str());
        },
        None => {
            assert(old(out)@ + banner_line(r@) =~= old(out)@);
        },
    }
}

/// Appends the port-database line of a table entry.
fn push_info_line(out: &mut String, r: &ScanResult, show_info: bool)
    ensures
        final(out)@ == old(out)@ + info_line(r@, show_info),
{
    if show_info && r.status == PortStatus::Open {
        match port_info(r.port) {
            Some(info) => {
                let mut line = String::from_str("    Info: ");
                line.append(info.description);
                line.append(" | Risk: ");
                line.append(info.security_risk);
                line.append(" | CVSS: ");
                push_cvss(&mut line, info.cvss_tenths);
                line.append("\n");
                out.append(line.as_str());
            },
            None => {
                assert(old(out)@ + info_line(r@, show_info) =~= old(out)@);
            },
        }
    } else {
        assert(old(out)@ + info_line(r@, show_info) =~= old(out)@);
    }
}

proof fn lemma_concat_assoc4(o: Seq<char>, a: Seq<char>, b: Seq<char>, c: Seq<char>, d: Seq<char>)
    ensures
        o + a + b + c + d == o + (a + b + c + d),
{
    assert(o + a + b + c + d =~= o + (a + b + c + d));
}

/// Appends the lines of a table entry that follow its first line.
fn push_detail_lines(out: &mut String, r: &ScanResult, show_info: bool)
    requires
        r@.banner matches Some(b) ==> (encode_utf8(b).len() > 120 ==> is_char_boundary(
            encode_utf8(b),
            120,
        )),
    ensures
        final(out)@ == old(out)@ + detail_lines(r@, show_info),
{
    push_ttl_line(out, r);
    push_version_line(out, r);
    push_banner_line(out, r);
    push_info_line(out, r, show_info);
    proof {
        lemma_concat_assoc4(
            old(out)@,
            ttl_line(r@),
            version_line(r@),
            banner_line(r@),
            info_line(r@, show_info),
        );
    }
}

/// Renders the findings in the named format: comma-separated values
/// (`csv`), one line per host with open ports (`grepable`), or a table with one entry
/// per finding (any other name), port-database notes added to open ports
/// when `show_info` holds. For `json` it gives `None`: that format is the
/// serialised findings, which a serialiser renders.
pub fn format_results(results: &[ScanResult], format: &str, show_info: bool) -> (r: Option<
    String,
>)
    requires
        format_named(format@) == ReportFormat::Table ==> banners_cut_cleanly(views(results@)),
    ensures
        format_named(format@) == ReportFormat::Json ==> r is None,
        format_named(format@) != ReportFormat::Json ==> (r matches Some(t) && t@ == report_text(
            views(results@),
            format_named(format@),
            show_info,
        )),
{
    let ghost rs = views(results@);
    let f = report_format(format);
    match f {
        ReportFormat::Json => None,
        ReportFormat::Csv => {
            let mut out = String::from_str("ip,port,status,service,ttl,os,version,timestamp\n");
            let mut i: usize = 0;
            while i < results.len()
                invariant
                    i <= results.len(),
                    rs == views(results@),
                    out@ == "ip,port,status,service,ttl,os,version,timestamp\n"@ + csv_rows(
                        rs.take(i as int),
                    ),
                decreases results.len() - i,
            {
                proof {
                    assert(rs.take(i + 1).drop_last() =~= rs.take(i as int));
                    assert(rs.take(i + 1).last() == results@[i as int]@);
                }
                push_csv_row(&mut out, &results[i]);
                i = i + 1;
                assert(out@ =~= "ip,port,status,service,ttl,os,version,timestamp\n"@ + csv_rows(
                    rs.take(i as int),
                ));
            }
            assert(rs.take(i as int) =~= rs);
            Some(out)
        },
        ReportFormat::Grepable => {
            let hs = open_host_list(results);
            let ghost hv = hs@.map_values(|t: String| t@);
            let mut out = String::new();
            let mut k: usize = 0;
            assert(hv.take(0) =~= Seq::<Seq<char>>::empty());
            while k < hs.len()
                invariant
                    k <= hs.len(),
                    rs == views(results@),
                    hv == hs@.map_values(|t: String| t@),
                    hv == open_hosts(rs),
                    out@ == grep_lines(rs, hv.take(k as int)),
                decreases hs.len() - k,
            {
                proof {
                    assert(hv.take(k + 1).drop_last() =~= hv.take(k as int));
                    assert(hv.take(k + 1).last() == hs@[k as int]@);
                }
                let line = grep_line_for(results, &hs[k]);
                out.append(line.as_str());
                k = k + 1;
            }
            assert(hv.take(k as int) =~= hv);
            Some(out)
        },
        ReportFormat::Table => {
            let mut out = String::from_str(
                "╔══════════════════════════════════════════════════════════╗\n",
            );
            out.append("║                     SCAN RESULTS                        ║\n");
            out.append("╚══════════════════════════════════════════════════════════╝\n");
            assert(rs.take(0) =~= Seq::<ResultView>::empty());
            assert(out@ =~= table_title() + table_rows(rs.take(0), show_info));
            let mut i: usize = 0;
            while i < results.len()
                invariant
                    i <= results.len(),
                    rs == views(results@),
                    banners_cut_cleanly(rs),
                    out@ == table_title() + table_rows(rs.take(i as int), show_info),
                decreases results.len() - i,
            {
                proof {
                    assert(rs.take(i + 1).drop_last() =~= rs.take(i as int));
                    assert(rs.take(i + 1).last() == results@[i as int]@);
                    assert(rs[i as int] == results@[i as int]@);
                }
                let ghost before = out@;
                push_head_line(&mut out, &results[i]);
                push_detail_lines(&mut out, &results[i], show_info);
                proof {
                    lemma_concat_assoc(before, table_head_line(rs[i as int]), detail_lines(rs[i as int], show_info));
                    lemma_concat_assoc(table_title(), table_rows(rs.take(i as int), show_info), table_row(rs[i as int], show_info));
                }
                i = i + 1;
            }
            assert(rs.take(i as int) =~= rs);
            Some(out)
        },
    }
}

} // verus!

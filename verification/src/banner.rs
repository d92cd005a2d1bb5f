//! Service banners: the probe sent to each service, the text kept of a
//! reply, and what the text reveals of version and operating system.

use vstd::prelude::*;
use crate::text::{
    chars_of, contains_seq, contains_str, find_char, find_seq, find_seq_in, is_digit, is_whitespace,
    is_ws, lemma_find_char, lemma_split_step, next_char, push_char, push_chars, starts_with, trim,
    trim_bounds, trim_end, trim_start, lemma_trim_start_skip, lemma_find_seq_bounds,
    lemma_contains_seq_iff, mentions,
};

use vstd::utf8::{
    encode_utf8, encode_utf8_valid_utf8, is_ascii_chars, is_ascii_chars_encode_utf8, is_char_boundary,
    is_char_boundary_iff_not_is_continuation_byte, is_continuation_byte,
};

verus! {

/// The request that starts a conversation with the service on `port`:
/// nothing for services that greet first (FTP, POP3, IMAP), a client
/// hello for SSH and SMTP, a `HEAD` request for HTTP, a bare line break
/// otherwise.
pub open spec fn probe_text(port: u16) -> Seq<char> {
    if port == 21 || port == 110 || port == 143 {
        ""@
    } else if port == 22 {
        "SSH-2.0-DesertStorm_5.1\r\n"@
    } else if port == 25 || port == 587 {
        "EHLO desertstorm\r\n"@
    } else if port == 80 || port == 8080 || port == 8443 {
        "HEAD / HTTP/1.0\r\nHost: target\r\nUser-Agent: DesertStorm/5.1\r\n\r\n"@
    } else {
        "\r\n"@
    }
}

/// The request to send to the service on `port`.
pub fn probe_for_port(port: u16) -> (r: &'static str)
    ensures
        r@ == probe_text(port),
{
    if port == 21 || port == 110 || port == 143 {
        ""
    } else if port == 22 {
        "SSH-2.0-DesertStorm_5.1\r\n"
    } else if port == 25 || port == 587 {
        "EHLO desertstorm\r\n"
    } else if port == 80 || port == 8080 || port == 8443 {
        "HEAD / HTTP/1.0\r\nHost: target\r\nUser-Agent: DesertStorm/5.1\r\n\r\n"
    } else {
        "\r\n"
    }
}

/// How a received byte is shown: line breaks and printable ASCII as
/// themselves, anything else as `.`.
pub open spec fn shown_char(b: u8) -> char {
    if b == 10 || b == 13 || (0x20 <= b && b < 0x7f) {
        b as char
    } else {
        '.'
    }
}

/// The text kept of a reply: every byte shown, white space trimmed.
pub open spec fn banner_text(raw: Seq<u8>) -> Seq<char> {
    trim(raw.map_values(|b: u8| shown_char(b)))
}

/// The banner text of the bytes a service sent.
pub fn sanitize_banner(raw: &[u8]) -> (r: String)
    ensures
        r@ == banner_text(raw@),
{
    let mut v: Vec<char> = Vec::new();
    let mut i: usize = 0;
    while i < raw.len()
        invariant
            i <= raw.len(),
            v@ == raw@.take(i as int).map_values(|b: u8| shown_char(b)),
        decreases raw.len() - i,
    {
        let b = raw[i];
        let c = if b == 10 || b == 13 || (0x20 <= b && b < 0x7f) {
            b as char
        } else {
            '.'
        };
        v.push(c);
        i = i + 1;
        assert(v@ =~= raw@.take(i as int).map_values(|b: u8| shown_char(b)));
    }
    assert(raw@.take(i as int) =~= raw@);
    let n = v.len();
    let (a, b) = trim_bounds(&v, 0, n);
    assert(v@.subrange(0, n as int) =~= v@);
    let mut out = String::new();
    push_chars(&mut out, &v, a, b);
    assert(out@ =~= banner_text(raw@));
    out
}

/// What `str::to_lowercase` gives for `s`.
pub uninterp spec fn lowercase_of(s: Seq<char>) -> Seq<char>;

/// `str::to_lowercase`: the lower-case form of `s` under Unicode's case
/// mapping. Its result is named, not described.
#[verifier::external_body]
fn lowercase(s: &str) -> (r: String)
    ensures
        r@ == lowercase_of(s@),
{
    s.to_lowercase()
}

/// The operating system that a lower-cased banner names.
pub open spec fn os_named_in(lower: Seq<char>) -> Option<Seq<char>> {
    if contains_seq(lower, "ubuntu"@) {
        Some("Linux (Ubuntu)"@)
    } else if contains_seq(lower, "debian"@) {
        Some("Linux (Debian)"@)
    } else if contains_seq(lower, "centos"@) || contains_seq(lower, "red hat"@) || contains_seq(
        lower,
        "rhel"@,
    ) {
        Some("Linux (RHEL/CentOS)"@)
    } else if contains_seq(lower, "windows"@) || contains_seq(lower, "microsoft"@) {
        Some("Windows"@)
    } else if contains_seq(lower, "freebsd"@) {
        Some("FreeBSD"@)
    } else {
        None
    }
}

/// The operating-system guess of a lower-cased banner rests on the words
/// that occur in it: each guess needs one of its words (FreeBSD needs
/// "freebsd"; Windows "windows" or "microsoft"; RHEL/CentOS "centos", "red
/// hat" or "rhel"; Debian "debian"; Ubuntu "ubuntu"), a banner with none of
/// these words gives no guess, and where several occur the first family in
/// that list from Ubuntu down wins.
pub proof fn lemma_os_guess_words(lower: Seq<char>)
    ensures
        ({
            let os = os_named_in(lower);
            let ubuntu = mentions(lower, "ubuntu"@);
            let debian = mentions(lower, "debian"@);
            let rhel = mentions(lower, "centos"@) || mentions(lower, "red hat"@) || mentions(
                lower,
                "rhel"@,
            );
            let windows = mentions(lower, "windows"@) || mentions(lower, "microsoft"@);
            let freebsd = mentions(lower, "freebsd"@);
            &&& os == Some("FreeBSD"@) <==> freebsd && !ubuntu && !debian && !rhel && !windows
            &&& os == Some("Windows"@) <==> windows && !ubuntu && !debian && !rhel
            &&& os == Some("Linux (RHEL/CentOS)"@) <==> rhel && !ubuntu && !debian
            &&& os == Some("Linux (Debian)"@) <==> debian && !ubuntu
            &&& os == Some("Linux (Ubuntu)"@) <==> ubuntu
            &&& os is None <==> !ubuntu && !debian && !rhel && !windows && !freebsd
        }),
{
    lemma_contains_seq_iff(lower, "ubuntu"@);
    lemma_contains_seq_iff(lower, "debian"@);
    lemma_contains_seq_iff(lower, "centos"@);
    lemma_contains_seq_iff(lower, "red hat"@);
    lemma_contains_seq_iff(lower, "rhel"@);
    lemma_contains_seq_iff(lower, "windows"@);
    lemma_contains_seq_iff(lower, "microsoft"@);
    lemma_contains_seq_iff(lower, "freebsd"@);
    reveal_strlit("FreeBSD");
    reveal_strlit("Windows");
    reveal_strlit("Linux (RHEL/CentOS)");
    reveal_strlit("Linux (Debian)");
    reveal_strlit("Linux (Ubuntu)");
    let names = seq!["FreeBSD"@, "Windows"@, "Linux (RHEL/CentOS)"@, "Linux (Debian)"@, "Linux (Ubuntu)"@];
    assert("FreeBSD"@[0] == 'F' && "Windows"@[0] == 'W' && "Linux (RHEL/CentOS)"@[0] == 'L');
    assert("Linux (RHEL/CentOS)"@.len() == 19 && "Linux (Debian)"@.len() == 14);
    assert("Linux (Debian)"@[7] == 'D' && "Linux (Ubuntu)"@[7] == 'U' && "Linux (Ubuntu)"@[0] == 'L');
    assert(forall|a: int, b: int| 0 <= a < b < 5 ==> names[a] != names[b]);
}

/// The operating system that a lower-cased banner names.
pub fn os_from_lowercase(lower: &str) -> (r: Option<String>)
    ensures
        r.deep_view() == os_named_in(lower@),
{
    let v = chars_of(lower);
    if contains_str(&v, "ubuntu") {
        Some(String::from_str("Linux (Ubuntu)"))
    } else if contains_str(&v, "debian") {
        Some(String::from_str("Linux (Debian)"))
    } else if contains_str(&v, "centos") || contains_str(&v, "red hat") || contains_str(&v, "rhel") {
        Some(String::from_str("Linux (RHEL/CentOS)"))
    } else if contains_str(&v, "windows") || contains_str(&v, "microsoft") {
        Some(String::from_str("Windows"))
    } else if contains_str(&v, "freebsd") {
        Some(String::from_str("FreeBSD"))
    } else {
        None
    }
}

/// Detects the operating system that a banner names.
pub fn detect_os_from_banner(banner: &str) -> (r: Option<String>)
    ensures
        r.deep_view() == os_named_in(lowercase_of(banner@)),
{
    let lower = lowercase(banner);
    os_from_lowercase(lower.as_str())
}

/// The longest prefix of `s` made of ASCII digits and dots.
pub open spec fn version_run(s: Seq<char>) -> Seq<char>
    decreases s.len(),
{
    if s.len() > 0 && (is_digit(s[0]) || s[0] == '.') {
        seq![s[0]] + version_run(s.drop_first())
    } else {
        Seq::empty()
    }
}

/// The OpenSSH version that a lower-cased banner gives: the digits and
/// dots after the first `openssh_`.
pub open spec fn ssh_version_text(lower: Seq<char>) -> Seq<char> {
    match find_seq(lower, "openssh_"@) {
        Some(i) => "OpenSSH "@ + version_run(lower.skip(i + 8)),
        None => "OpenSSH"@,
    }
}

/// The OpenSSH version that a lower-cased banner gives.
pub fn ssh_version(lower: &str) -> (r: String)
    ensures
        r@ == ssh_version_text(lower@),
{
    let v = chars_of(lower);
    let pat = chars_of("openssh_");
    match find_seq_in(&v, &pat) {
        Some(i) => {
            proof {
                reveal_strlit("openssh_");
                lemma_find_seq_bounds(v@, pat@);
                assert("openssh_"@.len() == 8);
                assert(pat@.len() == 8);
                assert(crate::text::occurs_at(v@, pat@, i as int));
                assert(i + 8 <= v.len());
            }
            let mut out = String::from_str("OpenSSH ");
            let start = i + 8;
            let mut j = start;
            while j < v.len() && (('0' <= v[j] && v[j] <= '9') || v[j] == '.')
                invariant
                    start <= j <= v.len(),
                    version_run(v@.skip(start as int)) == v@.subrange(start as int, j as int)
                        + version_run(v@.skip(j as int)),
                decreases v.len() - j,
            {
                assert(v@.skip(j as int)[0] == v@[j as int]);
                assert(v@.skip(j as int).drop_first() =~= v@.skip(j + 1));
                assert(v@.subrange(start as int, j + 1) =~= v@.subrange(start as int, j as int) + seq![v@[j as int]]);
                j = j + 1;
            }
            proof {
                if j < v.len() {
                    assert(v@.skip(j as int)[0] == v@[j as int]);
                }
                assert(version_run(v@.skip(j as int)) =~= Seq::<char>::empty());
            }
            push_chars(&mut out, &v, start, j);
            out
        },
        None => String::from_str("OpenSSH"),
    }
}

/// `x` without one trailing carriage return.
pub open spec fn strip_cr(x: Seq<char>) -> Seq<char> {
    if x.len() > 0 && x.last() == '\r' {
        x.drop_last()
    } else {
        x
    }
}

/// The lines of `s`, as `str::lines` gives them: split after each `\n`,
/// which is dropped with one `\r` before it; no empty last line.
pub open spec fn lines(s: Seq<char>) -> Seq<Seq<char>>
    decreases s.len(),
{
    if s.len() == 0 {
        Seq::empty()
    } else {
        match find_char(s, '\n') {
            Some(i) => if 0 <= i < s.len() {
                seq![strip_cr(s.take(i))] + lines(s.skip(i + 1))
            } else {
                seq![s]
            },
            None => seq![s],
        }
    }
}

/// Index of the first line whose lower-case form begins with `server:`.
pub open spec fn server_line(ls: Seq<Seq<char>>) -> Option<int>
    decreases ls.len(),
{
    if ls.len() == 0 {
        None
    } else if starts_with(lowercase_of(ls[0]), "server:"@) {
        Some(0)
    } else {
        match server_line(ls.drop_first()) {
            Some(k) => Some(k + 1),
            None => None,
        }
    }
}

/// Whether the lower-case form of `line` begins with `server:`.
pub open spec fn is_server_line(line: Seq<char>) -> bool {
    starts_with(lowercase_of(line), "server:"@)
}

proof fn lemma_server_line(ls: Seq<Seq<char>>)
    ensures
        server_line(ls) matches Some(k) ==> 0 <= k < ls.len() && is_server_line(ls[k]) && forall|
            i: int,
        | 0 <= i < k ==> !is_server_line(#[trigger] ls[i]),
        server_line(ls) is None ==> forall|i: int| 0 <= i < ls.len() ==> !is_server_line(#[trigger] ls[i]),
    decreases ls.len(),
{
    if ls.len() > 0 && !is_server_line(ls[0]) {
        let t = ls.drop_first();
        lemma_server_line(t);
        assert forall|i: int| 1 <= i < ls.len() implies ls[i] == t[i - 1] by {}
    }
}

/// `x` from its first colon on (empty if it has none).
pub open spec fn from_colon(x: Seq<char>) -> Seq<char> {
    match find_char(x, ':') {
        Some(i) => x.skip(i),
        None => Seq::empty(),
    }
}

/// `x` without its leading colons.
pub open spec fn strip_colons(x: Seq<char>) -> Seq<char>
    decreases x.len(),
{
    if x.len() > 0 && x[0] == ':' {
        strip_colons(x.drop_first())
    } else {
        x
    }
}

/// The value of a `Server:` header line: what follows its colons, trimmed.
pub open spec fn server_value(line: Seq<char>) -> Seq<char> {
    trim(strip_colons(from_colon(line)))
}

/// The web server that a banner names in its first `Server:` line.
pub open spec fn http_version_text(banner: Seq<char>) -> Seq<char> {
    match server_line(lines(banner)) {
        Some(k) => server_value(lines(banner)[k]),
        None => "unknown"@,
    }
}

proof fn lemma_lines_step(v: Seq<char>, lo: int, j: int, hi: int)
    requires
        0 <= lo < hi <= v.len(),
        lo <= j <= hi,
        find_char(v.subrange(lo, hi), '\n') == (if j < hi { Some(j - lo) } else { None::<int> }),
    ensures
        j < hi ==> lines(v.subrange(lo, hi)) == seq![strip_cr(v.subrange(lo, j))] + lines(
            v.subrange(j + 1, hi),
        ),
        j == hi ==> lines(v.subrange(lo, hi)) == seq![v.subrange(lo, hi)],
{
    let s = v.subrange(lo, hi);
    if j < hi {
        assert(s.take(j - lo) =~= v.subrange(lo, j));
        assert(s.skip(j - lo + 1) =~= v.subrange(j + 1, hi));
    }
}

proof fn lemma_strip_colons_skip(x: Seq<char>, k: int)
    requires
        0 <= k <= x.len(),
        forall|i: int| 0 <= i < k ==> #[trigger] x[i] == ':',
        k == x.len() || x[k] != ':',
    ensures
        strip_colons(x) == x.skip(k),
    decreases k,
{
    if k == 0 {
        assert(x.skip(0) =~= x);
    } else {
        let t = x.drop_first();
        assert forall|i: int| 0 <= i < k - 1 implies #[trigger] t[i] == ':' by {
            assert(t[i] == x[i + 1]);
        }
        lemma_strip_colons_skip(t, k - 1);
        assert(t.skip(k - 1) =~= x.skip(k));
    }
}

/// The value of the header line `v[lo..hi]`.
fn server_value_at(v: &Vec<char>, lo: usize, hi: usize) -> (r: String)
    requires
        lo <= hi <= v.len(),
    ensures
        r@ == server_value(v@.subrange(lo as int, hi as int)),
{
    let ghost x = v@.subrange(lo as int, hi as int);
    let c = next_char(v, lo, hi, ':');
    if c == hi {
        assert(from_colon(x) =~= Seq::<char>::empty());
        assert(trim(Seq::<char>::empty()) =~= Seq::<char>::empty());
        return String::new();
    }
    assert(from_colon(x) =~= v@.subrange(c as int, hi as int));
    let mut a = c;
    while a < hi && v[a] == ':'
        invariant
            c <= a <= hi <= v.len(),
            forall|i: int| c <= i < a ==> v@[i] == ':',
        decreases hi - a,
    {
        a = a + 1;
    }
    proof {
        let y = v@.subrange(c as int, hi as int);
        assert forall|i: int| 0 <= i < a - c implies #[trigger] y[i] == ':' by {
            assert(y[i] == v@[i + c]);
        }
        if a < hi {
            assert(y[a - c] == v@[a as int]);
        }
        lemma_strip_colons_skip(y, a - c);
        assert(y.skip(a - c) =~= v@.subrange(a as int, hi as int));
    }
    let (p, q) = trim_bounds(v, a, hi);
    let mut out = String::new();
    push_chars(&mut out, v, p, q);
    assert(out@ =~= server_value(x));
    out
}

/// Whether `s` begins with `p`.
fn starts_with_str(s: &Vec<char>, p: &str) -> (r: bool)
    ensures
        r == starts_with(s@, p@),
{
    let pv = chars_of(p);
    if pv.len() > s.len() {
        return false;
    }
    let mut k: usize = 0;
    while k < pv.len()
        invariant
            k <= pv.len() <= s.len(),
            pv@ == p@,
            forall|j: int| 0 <= j < k ==> s@[j] == pv@[j],
        decreases pv.len() - k,
    {
        if s[k] != pv[k] {
            assert(s@.take(pv.len() as int)[k as int] != pv@[k as int]);
            assert(s@.take(pv.len() as int) != pv@);
            return false;
        }
        k = k + 1;
    }
    assert(s@.take(pv.len() as int) =~= pv@);
    true
}

/// The web server that a banner names.
pub fn http_version(banner: &str) -> (r: String)
    ensures
        r@ == http_version_text(banner@),
{
    let v = chars_of(banner);
    let n = v.len();
    let ghost ls = lines(v@);
    assert(v@.subrange(0, n as int) =~= v@);
    assert(ls.skip(0) =~= ls);
    let mut pos: usize = 0;
    let ghost mut k: int = 0;
    loop
        invariant
            pos <= n == v.len(),
            0 <= k <= ls.len(),
            v@ == banner@,
            ls == lines(v@),
            lines(v@.subrange(pos as int, n as int)) == ls.skip(k),
            forall|i: int| 0 <= i < k ==> !is_server_line(#[trigger] ls[i]),
        decreases n - pos,
    {
        if pos == n {
            proof {
                assert(ls.skip(k).len() == 0);
                assert(k == ls.len());
                lemma_server_line(ls);
                if let Some(i) = server_line(ls) {
                    assert(!is_server_line(ls[i]));
                }
            }
            return String::from_str("unknown");
        }
        let j = next_char(&v, pos, n, '\n');
        proof {
            lemma_lines_step(v@, pos as int, j as int, n as int);
        }
        let e = if j < n && j > pos && v[j - 1] == '\r' { j - 1 } else { j };
        proof {
            if j < n {
                assert(strip_cr(v@.subrange(pos as int, j as int)) =~= v@.subrange(pos as int, e as int));
            }
            assert(ls.skip(k).len() >= 1);
            assert(ls.skip(k)[0] == ls[k]);
            assert(ls[k] == v@.subrange(pos as int, e as int));
        }
        let mut line = String::new();
        push_chars(&mut line, &v, pos, e);
        let lower = lowercase(line.as_str());
        let lc = chars_of(lower.as_str());
        let found = starts_with_str(&lc, "server:");
        assert(found == is_server_line(ls[k]));
        if found {
            proof {
                lemma_server_line(ls);
                match server_line(ls) {
                    Some(i) => {
                        if i < k {
                            assert(!is_server_line(ls[i]));
                        } else if i > k {
                            assert(!is_server_line(ls[k]));
                        }
                    },
                    None => {
                        assert(!is_server_line(ls[k]));
                    },
                }
                assert(server_line(ls) == Some(k));
                assert(v@ == banner@);
            }
            return server_value_at(&v, pos, e);
        }
        if j == n {
            proof {
                assert(ls.skip(k).len() == 1);
                assert(k + 1 == ls.len());
                lemma_server_line(ls);
                if let Some(i) = server_line(ls) {
                    if i < k {
                        assert(!is_server_line(ls[i]));
                    }
                }
            }
            return String::from_str("unknown");
        }
        proof {
            assert(ls.skip(k + 1) =~= ls.skip(k).drop_first());
            k = k + 1;
        }
        pos = j + 1;
    }
}

/// Index of the first white-space character of `s`, if any.
pub open spec fn find_ws(s: Seq<char>) -> Option<int>
    decreases s.len(),
{
    if s.len() == 0 {
        None
    } else if is_ws(s[0]) {
        Some(0)
    } else {
        match find_ws(s.drop_first()) {
            Some(i) => Some(i + 1),
            None => None,
        }
    }
}

proof fn lemma_find_ws_at(s: Seq<char>, k: int)
    requires
        0 <= k <= s.len(),
        forall|j: int| 0 <= j < k ==> !is_ws(#[trigger] s[j]),
        k == s.len() || is_ws(s[k]),
    ensures
        find_ws(s) == (if k < s.len() { Some(k) } else { None::<int> }),
    decreases k,
{
    if k > 0 {
        let t = s.drop_first();
        assert forall|j: int| 0 <= j < k - 1 implies !is_ws(#[trigger] t[j]) by {
            assert(t[j] == s[j + 1]);
        }
        if k < s.len() {
            assert(t[k - 1] == s[k]);
        }
        lemma_find_ws_at(t, k - 1);
    }
}

/// The words of `s`, as `str::split_whitespace` yields them: the maximal
/// runs of characters that are not white space.
pub open spec fn words(s: Seq<char>) -> Seq<Seq<char>>
    decreases s.len(),
{
    if s.len() == 0 {
        Seq::empty()
    } else if is_ws(s[0]) {
        words(s.drop_first())
    } else {
        match find_ws(s) {
            Some(i) => if 0 < i < s.len() {
                seq![s.take(i)] + words(s.skip(i))
            } else {
                seq![s]
            },
            None => seq![s],
        }
    }
}

/// `ws` joined with single spaces.
pub open spec fn join_words(ws: Seq<Seq<char>>) -> Seq<char>
    decreases ws.len(),
{
    if ws.len() == 0 {
        Seq::empty()
    } else if ws.len() == 1 {
        ws[0]
    } else {
        join_words(ws.drop_last()) + " "@ + ws.last()
    }
}

/// The first three entries of `ws` (all of them if there are fewer).
pub open spec fn first_three(ws: Seq<Seq<char>>) -> Seq<Seq<char>> {
    if ws.len() <= 3 {
        ws
    } else {
        ws.take(3)
    }
}

/// What an FTP greeting gives as version: its first three words.
pub open spec fn ftp_version_text(banner: Seq<char>) -> Seq<char> {
    join_words(first_three(words(banner)))
}

proof fn lemma_words_ws(v: Seq<char>, pos: int, n: int)
    requires
        0 <= pos < n <= v.len(),
        is_ws(v[pos]),
    ensures
        words(v.subrange(pos, n)) == words(v.subrange(pos + 1, n)),
{
    let s = v.subrange(pos, n);
    assert(s[0] == v[pos]);
    assert(s.drop_first() =~= v.subrange(pos + 1, n));
}

proof fn lemma_words_word(v: Seq<char>, pos: int, j: int, n: int)
    requires
        0 <= pos < j <= n <= v.len(),
        forall|k: int| pos <= k < j ==> !is_ws(#[trigger] v[k]),
        j == n || is_ws(v[j]),
    ensures
        words(v.subrange(pos, n)) == seq![v.subrange(pos, j)] + words(v.subrange(j, n)),
{
    let s = v.subrange(pos, n);
    assert forall|k: int| 0 <= k < j - pos implies !is_ws(#[trigger] s[k]) by {
        assert(s[k] == v[k + pos]);
    }
    if j < n {
        assert(s[j - pos] == v[j]);
    }
    lemma_find_ws_at(s, j - pos);
    assert(s[0] == v[pos]);
    if j < n {
        assert(s.take(j - pos) =~= v.subrange(pos, j));
        assert(s.skip(j - pos) =~= v.subrange(j, n));
    } else {
        assert(s =~= v.subrange(pos, j));
        assert(words(v.subrange(j, n)) =~= Seq::<Seq<char>>::empty());
        assert(seq![s] + Seq::<Seq<char>>::empty() =~= seq![s]);
    }
}

/// The first three words of a banner, joined with single spaces.
pub fn ftp_version(banner: &str) -> (r: String)
    ensures
        r@ == ftp_version_text(banner@),
{
    let v = chars_of(banner);
    let n = v.len();
    let ghost ws = words(v@);
    assert(v@.subrange(0, n as int) =~= v@);
    assert(ws.skip(0) =~= ws);
    assert(ws.take(0) =~= Seq::<Seq<char>>::empty());
    let mut out = String::new();
    let mut pos: usize = 0;
    let mut count: usize = 0;
    while pos < n && count < 3
        invariant
            pos <= n == v.len(),
            count <= 3,
            count <= ws.len(),
            v@ == banner@,
            ws == words(v@),
            words(v@.subrange(pos as int, n as int)) == ws.skip(count as int),
            out@ == join_words(ws.take(count as int)),
        decreases n - pos,
    {
        if is_whitespace(v[pos]) {
            proof {
                lemma_words_ws(v@, pos as int, n as int);
            }
            pos = pos + 1;
        } else {
            let mut j = pos + 1;
            while j < n && !is_whitespace(v[j])
                invariant
                    pos < j <= n == v.len(),
                    !is_ws(v@[pos as int]),
                    forall|k: int| pos < k < j ==> !is_ws(#[trigger] v@[k]),
                decreases n - j,
            {
                j = j + 1;
            }
            proof {
                assert forall|k: int| pos <= k < j implies !is_ws(#[trigger] v@[k]) by {
                    if k == pos {
                    }
                }
                lemma_words_word(v@, pos as int, j as int, n as int);
                let w = v@.subrange(pos as int, j as int);
                assert(ws.skip(count as int).len() >= 1);
                assert(ws.skip(count as int)[0] == ws[count as int]);
                assert(ws[count as int] == w);
                assert(ws.skip(count + 1) =~= ws.skip(count as int).drop_first());
                assert(ws.skip(count as int).drop_first() =~= words(v@.subrange(j as int, n as int)));
                assert(ws.take(count + 1).drop_last() =~= ws.take(count as int));
                assert(ws.take(count + 1).last() == w);
            }
            if count > 0 {
                push_char(&mut out, ' ');
                proof {
                    reveal_strlit(" ");
                }
            }
            push_chars(&mut out, &v, pos, j);
            proof {
                if count == 0 {
                    assert(out@ =~= join_words(ws.take(1)));
                } else {
                    assert(out@ =~= join_words(ws.take(count + 1)));
                }
            }
            count = count + 1;
            pos = j;
        }
    }
    proof {
        if count < 3 {
            assert(ws.skip(count as int).len() == 0) by {
                assert(v@.subrange(n as int, n as int) =~= Seq::<char>::empty());
            }
            assert(ws.take(count as int) =~= ws);
        } else if ws.len() == 3 {
            assert(ws.take(3) =~= ws);
        }
    }
    out
}

/// The version text of a banner received from `port`, as the scanner
/// reports it: the OpenSSH release on port 22, the `Server:` header on
/// web ports, the greeting's first words on FTP, else `unknown`.
pub open spec fn version_text(banner: Seq<char>, port: u16) -> Seq<char> {
    let lower = lowercase_of(banner);
    if port == 22 && contains_seq(lower, "openssh"@) {
        ssh_version_text(lower)
    } else if (port == 80 || port == 443 || port == 8080 || port == 8443) && contains_seq(
        lower,
        "server:"@,
    ) {
        http_version_text(banner)
    } else if port == 21 && (contains_seq(lower, "ftpd"@) || contains_seq(lower, "ftp"@)) {
        ftp_version_text(banner)
    } else {
        "unknown"@
    }
}

/// Extracts the service version from a banner received from `port`.
pub fn extract_version(banner: &str, port: u16) -> (r: String)
    ensures
        r@ == version_text(banner@, port),
{
    let lower = lowercase(banner);
    let lv = chars_of(lower.as_str());
    if port == 22 && contains_str(&lv, "openssh") {
        ssh_version(lower.as_str())
    } else if (port == 80 || port == 443 || port == 8080 || port == 8443) && contains_str(
        &lv,
        "server:",
    ) {
        http_version(banner)
    } else if port == 21 && (contains_str(&lv, "ftpd") || contains_str(&lv, "ftp")) {
        ftp_version(banner)
    } else {
        String::from_str("unknown")
    }
}

/// What a reply from `port` tells: the banner text, the version found in
/// it, and the operating system it names.
pub fn analyze_banner(raw: &[u8], port: u16) -> (r: (String, String, Option<String>))
    ensures
        r.0@ == banner_text(raw@),
        r.1@ == version_text(r.0@, port),
        r.2.deep_view() == os_named_in(lowercase_of(r.0@)),
{
    let banner = sanitize_banner(raw);
    let version = extract_version(banner.as_str(), port);
    let os = detect_os_from_banner(banner.as_str());
    (banner, version, os)
}

/// Whether `c` may appear in a banner: a line break or printable ASCII.
pub open spec fn banner_char(c: char) -> bool {
    c == '\n' || c == '\r' || (' ' <= c && c <= '~')
}

proof fn lemma_trim_start_keeps(s: Seq<char>)
    requires
        forall|i: int| 0 <= i < s.len() ==> banner_char(#[trigger] s[i]),
    ensures
        forall|i: int| 0 <= i < trim_start(s).len() ==> banner_char(#[trigger] trim_start(s)[i]),
        trim_start(s).len() <= s.len(),
        trim_start(s).len() > 0 ==> !is_ws(trim_start(s)[0]),
    decreases s.len(),
{
    if s.len() > 0 && is_ws(s[0]) {
        let t = s.drop_first();
        assert forall|i: int| 0 <= i < t.len() implies banner_char(#[trigger] t[i]) by {
            assert(t[i] == s[i + 1]);
        }
        lemma_trim_start_keeps(t);
    }
}

proof fn lemma_trim_end_keeps(s: Seq<char>)
    requires
        forall|i: int| 0 <= i < s.len() ==> banner_char(#[trigger] s[i]),
    ensures
        forall|i: int| 0 <= i < trim_end(s).len() ==> banner_char(#[trigger] trim_end(s)[i]),
        trim_end(s).len() <= s.len(),
        forall|i: int| 0 <= i < trim_end(s).len() ==> trim_end(s)[i] == s[i],
        trim_end(s).len() > 0 ==> !is_ws(trim_end(s).last()),
    decreases s.len(),
{
    if s.len() > 0 && is_ws(s.last()) {
        let t = s.drop_last();
        assert forall|i: int| 0 <= i < t.len() implies banner_char(#[trigger] t[i]) by {
            assert(t[i] == s[i]);
        }
        lemma_trim_end_keeps(t);
        assert forall|i: int| 0 <= i < trim_end(s).len() implies trim_end(s)[i] == s[i] by {
            assert(trim_end(s)[i] == t[i]);
        }
    }
}

/// A grabbed banner holds nothing but line breaks and printable ASCII, and
/// has no white space at either end.
pub proof fn lemma_banner_printable(raw: Seq<u8>)
    ensures
        forall|i: int|
            0 <= i < banner_text(raw).len() ==> banner_char(#[trigger] banner_text(raw)[i]),
        banner_text(raw).len() > 0 ==> !is_ws(banner_text(raw)[0]) && !is_ws(
            banner_text(raw).last(),
        ),
{
    let m = raw.map_values(|b: u8| shown_char(b));
    assert forall|i: int| 0 <= i < m.len() implies banner_char(#[trigger] m[i]) by {
        let b = raw[i];
        assert(m[i] == shown_char(b));
        if b == 10 || b == 13 || (0x20 <= b && b < 0x7f) {
            assert(b as char == m[i]);
        }
    }
    lemma_trim_start_keeps(m);
    lemma_trim_end_keeps(trim_start(m));
}

/// A grabbed banner can always be shown in the table: cutting it after
/// 120 bytes never splits a character.
pub proof fn lemma_banner_cuts_cleanly(raw: Seq<u8>)
    ensures
        encode_utf8(banner_text(raw)).len() > 120 ==> is_char_boundary(
            encode_utf8(banner_text(raw)),
            120,
        ),
{
    let t = banner_text(raw);
    lemma_banner_printable(raw);
    assert(is_ascii_chars(t)) by {
        assert forall|i: int| 0 <= i < t.len() implies '\0' <= #[trigger] t[i] <= '\u{7f}' by {
            assert(banner_char(t[i]));
        }
    }
    is_ascii_chars_encode_utf8(t);
    let bytes = encode_utf8(t);
    if bytes.len() > 120 {
        encode_utf8_valid_utf8(t);
        let c = t[120];
        assert(banner_char(c));
        assert(c as u8 == bytes[120]);
        let b = bytes[120];
        assert(b < 0x80);
        assert(!is_continuation_byte(b)) by {
            assert(b < 0x80 ==> (b & 0xc0) != 0x80) by (bit_vector);
        }
        is_char_boundary_iff_not_is_continuation_byte(bytes, 120);
    }
}

} // verus!

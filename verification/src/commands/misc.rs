use vstd::prelude::*;
use crate::text::{
    law_filter_keeps_subseq, law_filter_membership, law_filter_weaker, lemma_subseq_len, subseq, contains, copies, decimal, decimal_string, join, join_strings, occurs_at, owned,
    repeat_char, str_contains,
};

verus! {

/// Where the page-status check takes its targets from: a file listing
/// URLs, one per line, or a single URL.
#[derive(Debug, Clone, PartialEq, Eq)]
pub enum FileOrUrl {
    /// A file of URLs.
    File(String),
    /// One URL, in its parsed (serialized) form.
    Url(String),
}

/// The miscellaneous command: page status checks and the SQL injection
/// audit of web-server logs.
#[derive(Debug, Clone)]
pub struct Misc {
    /// Pages whose status is checked.
    pub code: Option<FileOrUrl>,
    /// Web-server log to audit for SQL injection attempts (empty: the
    /// usual Apache and nginx logs).
    pub sqletlog: Option<String>,
    /// Crontab entry to install (not acted upon).
    pub auto_run: Option<String>,
    /// Custom command definitions (not acted upon).
    pub ext: String,
}

/// One step of the miscellaneous command, in the order it performs them.
#[derive(Debug, Clone, PartialEq, Eq)]
pub enum MiscTask {
    /// Check every URL listed in this file.
    ScanUrlList(String),
    /// Check this URL.
    ScanUrl(String),
    /// Audit this log path for SQL injection attempts.
    SqlInjectionAudit(String),
}

/// A log audit in progress: the signs looked for, and the count of the
/// suspicious lines among those examined so far.
pub struct SqliAudit {
    patterns: Vec<String>,
    suspicious: i32,
    seen: Ghost<Seq<Seq<char>>>,
}

/// The serialization of the URL that `s` parses to, or `None` when `s` is
/// not an absolute URL.
pub uninterp spec fn url_parse(s: Seq<char>) -> Option<Seq<char>>;

/// The lowercase form of a text, as Unicode defines it.
pub uninterp spec fn lowercase(s: Seq<char>) -> Seq<char>;

/// Parses `s` as an absolute URL.
/// Trusted: `url::Url::parse` succeeds or fails on `s` alone, and
/// `Url::as_str` gives the serialization; both are named by `url_parse`.
#[verifier::external_body]
fn parse_url(s: &str) -> (r: Option<String>)
    ensures
        r matches Some(u) ==> url_parse(s@) == Some(u@),
        r is None ==> url_parse(s@) is None,
{
    match url::Url::parse(s) {
        Ok(u) => Some(u.as_str().to_string()),
        Err(_) => None,
    }
}

/// An ASCII text: every character below 128.
pub open spec fn is_ascii_text(s: Seq<char>) -> bool {
    forall|i: int| 0 <= i < s.len() ==> (#[trigger] s[i] as int) < 128
}

/// A character with an ASCII capital letter turned into its small letter.
pub open spec fn ascii_lower_char(c: char) -> char {
    if 'A' <= c && c <= 'Z' {
        ((c as int) + 32) as char
    } else {
        c
    }
}

/// `s` with every ASCII capital letter turned into its small letter.
pub open spec fn ascii_fold(s: Seq<char>) -> Seq<char> {
    s.map_values(|c: char| ascii_lower_char(c))
}

/// The lowercase form of `s`.
/// Trusted: `str::to_lowercase` applies the Unicode `Lowercase` mapping
/// (with the context rule for a final capital sigma), so the result depends
/// on `s` alone and is named by `lowercase`; on an ASCII text it turns each
/// capital letter into its small letter and leaves every other character as
/// it is.  Changing the case of ASCII letters first changes nothing: each
/// ASCII letter lowercases to its small letter either way, and both cases
/// are cased letters, so the final-sigma context is the same.
#[verifier::external_body]
fn to_lowercase(s: &str) -> (r: String)
    ensures
        r@ == lowercase(s@),
        r@ == lowercase(ascii_fold(s@)),
        is_ascii_text(s@) ==> r@ == ascii_fold(s@),
{
    s.to_lowercase()
}

/// The pattern that captures a page title.
pub open spec fn title_pattern() -> Seq<char> {
    "<title>(.*?)</title>"@
}

/// A title element spans `h[i..j + 8]`: `<title>` at `i`, `</title>` at `j`,
/// and no line break in between.
pub open spec fn title_span(h: Seq<char>, i: int, j: int) -> bool {
    &&& occurs_at(h, "<title>"@, i)
    &&& i + "<title>"@.len() <= j
    &&& occurs_at(h, "</title>"@, j)
    &&& !h.subrange(i + "<title>"@.len(), j).contains('\n')
}

/// The span the pattern `<title>(.*?)</title>` matches: it starts leftmost,
/// and from that start the lazy group stops at the first closing tag.
pub open spec fn first_title_span(h: Seq<char>, i: int, j: int) -> bool {
    &&& title_span(h, i, j)
    &&& forall|i2: int, j2: int| title_span(h, i2, j2) ==> i <= i2
    &&& forall|j2: int| title_span(h, i, j2) ==> j <= j2
}

/// The title of a page: the text of its first title element on one line.
pub open spec fn html_title(h: Seq<char>) -> Option<Seq<char>> {
    if exists|i: int, j: int| title_span(h, i, j) {
        let (i, j) = choose|i: int, j: int| first_title_span(h, i, j);
        Some(h.subrange(i + "<title>"@.len(), j))
    } else {
        None
    }
}

/// The first capture group of `pattern` in `html`.
/// Trusted: for the pattern `<title>(.*?)</title>`, `regex::Regex::captures`
/// finds the leftmost match and, from there, the shortest group (lazy
/// repetition) made of characters other than a line break (`.` without the
/// `s` flag); `html_title` states that match.
#[verifier::external_body]
fn capture_title(pattern: &str, html: &str) -> (r: Option<String>)
    requires
        pattern@ == title_pattern(),
    ensures
        r matches Some(t) ==> html_title(html@) == Some(t@),
        r is None ==> html_title(html@) is None,
{
    let re = regex::Regex::new(pattern).ok()?;
    re.captures(html).map(|cap| cap[1].to_string())
}

/// The title shown for a page whose body is `h`.
pub open spec fn shown_title(h: Seq<char>) -> Seq<char> {
    match html_title(h) {
        Some(t) => t,
        None => "No title found"@,
    }
}

/// The signs of SQL injection looked for in log lines.
pub open spec fn sql_patterns() -> Seq<Seq<char>> {
    seq![
        "select"@,
        "union"@,
        "and"@,
        "or"@,
        "from"@,
        "where"@,
        "order by"@,
        "group by"@,
        "having"@,
        "limit"@,
        "offset"@,
        "delete"@,
        "drop"@,
        "update"@,
        "insert"@,
        "'"@,
        "\""@,
        "/*"@,
        "*/"@,
        "--"@,
        "#"@,
        "\\"@,
        "="@,
        "%27"@,
        "%22"@,
        "information_schema"@,
        "sysobjects"@,
        "syscolumns"@,
        "/*!"@,
        "declare"@,
        "exec"@,
        "xp_cmdshell"@,
        "sp_"@,
        "waitfor"@,
        "delay"@,
        "benchmark"@,
        "sleep"@,
        "load_file"@,
        "outfile"@,
        "dumpfile"@,
    ]
}

/// The signs of SQL injection from `patterns` present in a log line: each
/// pattern whose lowercase form occurs in the line's lowercase form, in list
/// order.
pub open spec fn found_patterns(line: Seq<char>, patterns: Seq<Seq<char>>) -> Seq<Seq<char>> {
    patterns.filter(|p: Seq<char>| contains(lowercase(line), lowercase(p)))
}

/// A log line holds at least one of `patterns`.
pub open spec fn flagged(line: Seq<char>, patterns: Seq<Seq<char>>) -> bool {
    found_patterns(line, patterns).len() > 0
}

/// The number of lines that hold at least one of `patterns`.
pub open spec fn flagged_count(lines: Seq<Seq<char>>, patterns: Seq<Seq<char>>) -> nat {
    lines.filter(|l: Seq<char>| flagged(l, patterns)).len()
}

/// Looking for more signs finds more: when the patterns `p1` are a
/// subsequence of the patterns `p2`, the signs found in a line with `p1`
/// are a subsequence of those found with `p2`, a line flagged with `p1` is
/// flagged with `p2`, and no line is flagged with no pattern at all.
pub proof fn law_more_patterns_find_more(line: Seq<char>, p1: Seq<Seq<char>>, p2: Seq<Seq<char>>)
    requires
        subseq(p1, p2),
    ensures
        subseq(found_patterns(line, p1), found_patterns(line, p2)),
        flagged(line, p1) ==> flagged(line, p2),
        p1.len() == 0 ==> !flagged(line, p1),
{
    let pred = |p: Seq<char>| contains(lowercase(line), lowercase(p));
    law_filter_keeps_subseq(p1, p2, pred);
    lemma_subseq_len(found_patterns(line, p1), found_patterns(line, p2));
    lemma_filter_len_bound(p1, pred);
}

/// A sign is found in a log line exactly when it is one of the patterns and
/// its lowercase form occurs, at any position, in the lowercase form of the
/// whole line; a line is flagged exactly when some pattern occurs in it so.
pub proof fn law_found_patterns_occur_in_line(
    line: Seq<char>,
    patterns: Seq<Seq<char>>,
    p: Seq<char>,
)
    ensures
        found_patterns(line, patterns).contains(p) <==> (patterns.contains(p) && contains(
            lowercase(line),
            lowercase(p),
        )),
        flagged(line, patterns) <==> exists|q: Seq<char>|
            #[trigger] patterns.contains(q) && contains(lowercase(line), lowercase(q)),
{
    let pred = |q: Seq<char>| contains(lowercase(line), lowercase(q));
    law_filter_membership(patterns, pred, p);
    if flagged(line, patterns) {
        let q = found_patterns(line, patterns)[0];
        assert(found_patterns(line, patterns).contains(q));
        law_filter_membership(patterns, pred, q);
    }
    if exists|q: Seq<char>| #[trigger] patterns.contains(q) && contains(lowercase(line), lowercase(q)) {
        let q = choose|q: Seq<char>| #[trigger] patterns.contains(q) && contains(lowercase(line), lowercase(q));
        law_filter_membership(patterns, pred, q);
    }
}

/// A sequence keeps at most its own elements.
proof fn lemma_filter_len_bound(s: Seq<Seq<char>>, pred: spec_fn(Seq<char>) -> bool)
    ensures
        s.filter(pred).len() <= s.len(),
    decreases s.len(),
{
    reveal_with_fuel(Seq::filter, 1);
    if s.len() > 0 {
        lemma_filter_len_bound(s.drop_last(), pred);
    }
}

/// Over the same log, auditing with the patterns `p1`, a subsequence of the
/// patterns `p2`, counts no more suspicious lines than auditing with `p2`,
/// and counts none when `p1` is empty.
pub proof fn law_more_patterns_count_more(
    lines: Seq<Seq<char>>,
    p1: Seq<Seq<char>>,
    p2: Seq<Seq<char>>,
)
    requires
        subseq(p1, p2),
    ensures
        flagged_count(lines, p1) <= flagged_count(lines, p2),
        p1.len() == 0 ==> flagged_count(lines, p1) == 0,
{
    let q1 = |l: Seq<char>| flagged(l, p1);
    let q2 = |l: Seq<char>| flagged(l, p2);
    assert forall|l: Seq<char>| #[trigger] q1(l) implies q2(l) by {
        law_more_patterns_find_more(l, p1, p2);
    }
    law_filter_weaker(lines, q1, q2);
    lemma_subseq_len(lines.filter(q1), lines.filter(q2));
    if p1.len() == 0 {
        let none = |l: Seq<char>| false;
        assert forall|l: Seq<char>| #[trigger] q1(l) implies none(l) by {
            law_more_patterns_find_more(l, p1, p2);
        }
        law_filter_weaker(lines, q1, none);
        lemma_subseq_len(lines.filter(q1), lines.filter(none));
        lemma_filter_none(lines);
    }
}

/// Keeping nothing leaves nothing.
proof fn lemma_filter_none(s: Seq<Seq<char>>)
    ensures
        s.filter(|l: Seq<char>| false).len() == 0,
    decreases s.len(),
{
    reveal_with_fuel(Seq::filter, 1);
    if s.len() > 0 {
        lemma_filter_none(s.drop_last());
    }
}

/// The report of a suspicious log line.
pub open spec fn suspicion_text(line: Seq<char>, found: Seq<Seq<char>>) -> Seq<char> {
    "[SUSPICIOUS] Found patterns: "@ + join(found, ", "@) + "\nLog entry: "@ + line + "\n"@
        + copies('-', 80) + "\n"@
}

/// The logs audited when no log path is given.
pub open spec fn default_logs() -> Seq<Seq<char>> {
    seq!["/var/log/apache2/access.log"@, "/var/log/apache/access.log"@, "/var/log/nginx/access.log"@]
}

/// From a start tag, the nearest closing tag on the same line closes the
/// first title.
proof fn lemma_first_close(h: Seq<char>, i: int, j: int)
    requires
        title_span(h, i, j),
        forall|i2: int, j2: int| title_span(h, i2, j2) ==> i <= i2,
    ensures
        exists|b: int| first_title_span(h, i, b),
    decreases j,
{
    if exists|j2: int| title_span(h, i, j2) && j2 < j {
        let j2 = choose|j2: int| title_span(h, i, j2) && j2 < j;
        lemma_first_close(h, i, j2);
    } else {
        assert(first_title_span(h, i, j));
    }
}

/// A page with a title element has a first one.
proof fn lemma_first_span(h: Seq<char>, i: int, j: int)
    requires
        title_span(h, i, j),
    ensures
        exists|a: int, b: int| first_title_span(h, a, b),
    decreases i,
{
    if exists|i2: int, j2: int| title_span(h, i2, j2) && i2 < i {
        let (i2, j2) = choose|i2: int, j2: int| title_span(h, i2, j2) && i2 < i;
        lemma_first_span(h, i2, j2);
    } else {
        lemma_first_close(h, i, j);
    }
}

/// A page title is one line of the page, written between `<title>` and
/// `</title>`: it holds no line break and the page holds
/// `<title>` + title + `</title>`.
pub proof fn law_title_is_one_line(h: Seq<char>)
    ensures
        html_title(h) matches Some(t) ==> {
            &&& !t.contains('\n')
            &&& contains(h, "<title>"@ + t + "</title>"@)
        },
{
    if exists|i: int, j: int| title_span(h, i, j) {
        let (i0, j0) = choose|i: int, j: int| title_span(h, i, j);
        lemma_first_span(h, i0, j0);
        let (i, j) = choose|i: int, j: int| first_title_span(h, i, j);
        let open_len = "<title>"@.len();
        let close_len = "</title>"@.len();
        let t = h.subrange(i + open_len, j);
        assert(html_title(h) == Some(t));
        assert(h.subrange(i, j + close_len) == h.subrange(i, i + open_len) + t + h.subrange(
            j,
            j + close_len,
        ));
        assert(occurs_at(h, "<title>"@ + t + "</title>"@, i));
    }
}

impl FileOrUrl {
    /// Reads a command-line value: a URL when it parses as an absolute URL
    /// (kept in its parsed form), a file path otherwise.
    pub fn from_str(s: &str) -> (r: FileOrUrl)
        ensures
            url_parse(s@) matches Some(u) ==> (r matches FileOrUrl::Url(x) && x@ == u),
            url_parse(s@) is None ==> (r matches FileOrUrl::File(p) && p@ == s@),
    {
        match parse_url(s) {
            Some(u) => FileOrUrl::Url(u),
            None => FileOrUrl::File(owned(s)),
        }
    }
}

/// The messages printed for one audited log: a log named by the user is
/// announced before it is looked for, and reported missing on a line of its
/// own; one of the usual logs is announced only when it exists, and
/// reported missing otherwise.
pub open spec fn log_notices(given: bool, target: Seq<char>, exists: bool) -> Seq<Seq<char>> {
    if given {
        if exists {
            seq!["\nChecking "@ + target]
        } else {
            seq!["\nChecking "@ + target, "File not found: "@ + target]
        }
    } else {
        if exists {
            seq!["\nChecking "@ + target]
        } else {
            seq!["\nFile not found: "@ + target]
        }
    }
}

impl Misc {
    /// The steps of the command: the page check (of a URL list or of one
    /// URL) when one is asked for, then the log audit when a log is given.
    pub fn run(&self) -> (tasks: Vec<MiscTask>)
        ensures
            tasks@.len() == (if self.code is Some { 1int } else { 0 }) + (if self.sqletlog is Some {
                1int
            } else {
                0
            }),
            self.code matches Some(FileOrUrl::File(p)) ==> (tasks@[0] matches MiscTask::ScanUrlList(q) && q@ == p@),
            self.code matches Some(FileOrUrl::Url(u)) ==> (tasks@[0] matches MiscTask::ScanUrl(v) && v@ == u@),
            self.sqletlog matches Some(l) ==> (tasks@.last() matches MiscTask::SqlInjectionAudit(m) && m@ == l@),
    {
        let mut tasks: Vec<MiscTask> = Vec::new();
        match &self.code {
            Some(FileOrUrl::File(p)) => tasks.push(MiscTask::ScanUrlList(p.clone())),
            Some(FileOrUrl::Url(u)) => tasks.push(MiscTask::ScanUrl(u.clone())),
            None => {},
        }
        match &self.sqletlog {
            Some(l) => tasks.push(MiscTask::SqlInjectionAudit(l.clone())),
            None => {},
        }
        tasks
    }

    /// The URL a line of a URL list names, in parsed form, or `None` for a
    /// line that is not an absolute URL (such lines are skipped).
    pub fn scan_target(line: &str) -> (r: Option<String>)
        ensures
            r matches Some(u) ==> url_parse(line@) == Some(u@),
            r is None ==> url_parse(line@) is None,
    {
        parse_url(line)
    }

    /// The result line of a page that answered: `[INFO] <url> [<status>]
    /// [<body length>] [<title>]` and a line break.
    pub fn http_info_line(url: &str, status: u16, body_len: usize, body: &str) -> (r: String)
        ensures
            r@ == "[INFO] "@ + url@ + " ["@ + decimal(status as nat) + "] ["@ + decimal(
                body_len as nat,
            ) + "] ["@ + shown_title(body@) + "]\n"@,
    {
        let title = match extract_title(body) {
            Some(t) => t,
            None => owned("No title found"),
        };
        let mut r = owned("[INFO] ");
        r.append(url);
        r.append(" [");
        r.append(decimal_string(status as u64).as_str());
        r.append("] [");
        r.append(decimal_string(body_len as u64).as_str());
        r.append("] [");
        r.append(title.as_str());
        r.append("]\n");
        r
    }

    /// The result line of a page that could not be fetched.
    pub fn http_error_line(url: &str, error: &str) -> (r: String)
        ensures
            r@ == "[ERROR] "@ + url@ + " - "@ + error@ + "\n"@,
    {
        let mut r = owned("[ERROR] ");
        r.append(url);
        r.append(" - ");
        r.append(error);
        r.append("\n");
        r
    }

    /// The logs to audit: the given one, or the usual web-server logs when
    /// the given path is empty.
    pub fn sqli_log_targets(log_path: &str) -> (r: Vec<String>)
        ensures
            log_path@.len() == 0 ==> r.deep_view() == default_logs(),
            log_path@.len() != 0 ==> r.deep_view() == seq![log_path@],
    {
        if log_path.unicode_len() == 0 {
            let r = vec![
                owned("/var/log/apache2/access.log"),
                owned("/var/log/apache/access.log"),
                owned("/var/log/nginx/access.log"),
            ];
            assert(r.deep_view() == default_logs());
            r
        } else {
            let r = vec![owned(log_path)];
            assert(r.deep_view() == seq![log_path@]);
            r
        }
    }

    /// The messages printed for the log `target` of an audit, which is a log
    /// named by the user when `given`, and exists or not; the log is analysed
    /// after them when it exists.
    pub fn log_target_notices(given: bool, target: &str, exists: bool) -> (r: Vec<String>)
        ensures
            r.deep_view() == log_notices(given, target@, exists),
    {
        let mut checking = owned("\nChecking ");
        checking.append(target);
        let r = if exists {
            vec![checking]
        } else if given {
            let mut missing = owned("File not found: ");
            missing.append(target);
            vec![checking, missing]
        } else {
            let mut missing = owned("\nFile not found: ");
            missing.append(target);
            vec![missing]
        };
        assert(r.deep_view() == log_notices(given, target@, exists));
        r
    }

    /// The signs of SQL injection looked for.
    pub fn sql_injection_patterns() -> (r: Vec<String>)
        ensures
            r.deep_view() == sql_patterns(),
    {
        let r = vec![
            owned("select"),
            owned("union"),
            owned("and"),
            owned("or"),
            owned("from"),
            owned("where"),
            owned("order by"),
            owned("group by"),
            owned("having"),
            owned("limit"),
            owned("offset"),
            owned("delete"),
            owned("drop"),
            owned("update"),
            owned("insert"),
            owned("'"),
            owned("\""),
            owned("/*"),
            owned("*/"),
            owned("--"),
            owned("#"),
            owned("\\"),
            owned("="),
            owned("%27"),
            owned("%22"),
            owned("information_schema"),
            owned("sysobjects"),
            owned("syscolumns"),
            owned("/*!"),
            owned("declare"),
            owned("exec"),
            owned("xp_cmdshell"),
            owned("sp_"),
            owned("waitfor"),
            owned("delay"),
            owned("benchmark"),
            owned("sleep"),
            owned("load_file"),
            owned("outfile"),
            owned("dumpfile"),
        ];
        assert(r.deep_view() == sql_patterns());
        r
    }

    /// The signs of SQL injection from `patterns` in `line`, in list order.
    pub fn suspicious_patterns(line: &str, patterns: &Vec<String>) -> (r: Vec<String>)
        ensures
            r.deep_view() == found_patterns(line@, patterns.deep_view()),
            found_patterns(line@, patterns.deep_view()) == found_patterns(
                ascii_fold(line@),
                patterns.deep_view(),
            ),
            forall|p: Seq<char>|
                #[trigger] r.deep_view().contains(p) <==> (patterns.deep_view().contains(p)
                    && contains(lowercase(line@), lowercase(p))),
    {
        proof {
            assert forall|p: Seq<char>|
                #[trigger] found_patterns(line@, patterns.deep_view()).contains(p) <==> (
                patterns.deep_view().contains(p) && contains(lowercase(line@), lowercase(p))) by {
                law_found_patterns_occur_in_line(line@, patterns.deep_view(), p);
            }
        }
        let lower = to_lowercase(line);
        proof {
            let a = |p: Seq<char>| contains(lowercase(line@), lowercase(p));
            let b = |p: Seq<char>| contains(lowercase(ascii_fold(line@)), lowercase(p));
            assert(a == b);
        }
        let ghost all = patterns.deep_view();
        let ghost pred = |p: Seq<char>| contains(lowercase(line@), lowercase(p));
        let mut r: Vec<String> = Vec::new();
        let mut i: usize = 0;
        while i < patterns.len()
            invariant
                i <= patterns@.len(),
                all == patterns.deep_view(),
                lower@ == lowercase(line@),
                pred == (|p: Seq<char>| contains(lowercase(line@), lowercase(p))),
                r.deep_view() == all.take(i as int).filter(pred),
            decreases patterns@.len() - i,
        {
            assert(all[i as int] == patterns@[i as int]@);
            let p = to_lowercase(patterns[i].as_str());
            let hit = str_contains(lower.as_str(), p.as_str());
            if hit {
                let ghost before = r.deep_view();
                r.push(patterns[i].clone());
                assert(r.deep_view() == before.push(all[i as int]));
            }
            proof {
                assert(all.take(i + 1).drop_last() == all.take(i as int));
                assert(all.take(i + 1).last() == all[i as int]);
                reveal_with_fuel(Seq::filter, 1);
                assert(all.take(i + 1).filter(pred) == if pred(all[i as int]) {
                    all.take(i as int).filter(pred).push(all[i as int])
                } else {
                    all.take(i as int).filter(pred)
                });
            }
            i = i + 1;
        }
        assert(all.take(patterns@.len() as int) == all);
        r
    }

    /// The report of a suspicious log line.
    pub fn suspicion_report(line: &str, found: &Vec<String>) -> (r: String)
        ensures
            r@ == suspicion_text(line@, found.deep_view()),
    {
        let mut r = owned("[SUSPICIOUS] Found patterns: ");
        r.append(join_strings(found, ", ").as_str());
        r.append("\nLog entry: ");
        r.append(line);
        r.append("\n");
        r.append(repeat_char('-', 80).as_str());
        r.append("\n");
        r
    }
}

/// The page title the status check shows: the text between the first
/// `<title>` and the next `</title>` on the same line.
pub fn extract_title(html: &str) -> (r: Option<String>)
    ensures
        r matches Some(t) ==> html_title(html@) == Some(t@),
        r is None ==> html_title(html@) is None,
{
    capture_title("<title>(.*?)</title>", html)
}

/// In each of the lines the same signs are found as in its form with ASCII
/// letters in small case: the audit of those lines does not depend on ASCII
/// letter case.
pub open spec fn case_blind(lines: Seq<Seq<char>>, patterns: Seq<Seq<char>>) -> bool {
    forall|i: int|
        0 <= i < lines.len() ==> found_patterns(#[trigger] lines[i], patterns) == found_patterns(
            ascii_fold(lines[i]),
            patterns,
        )
}

/// Counting keeps to lines whose flags agree one by one.
proof fn lemma_counts_agree(
    l1: Seq<Seq<char>>,
    l2: Seq<Seq<char>>,
    patterns: Seq<Seq<char>>,
)
    requires
        l1.len() == l2.len(),
        forall|i: int| 0 <= i < l1.len() ==> flagged(#[trigger] l1[i], patterns) == flagged(l2[i], patterns),
    ensures
        flagged_count(l1, patterns) == flagged_count(l2, patterns),
    decreases l1.len(),
{
    reveal_with_fuel(Seq::filter, 1);
    if l1.len() > 0 {
        assert forall|i: int| 0 <= i < l1.drop_last().len() implies flagged(
            #[trigger] l1.drop_last()[i],
            patterns,
        ) == flagged(l2.drop_last()[i], patterns) by {
            assert(l1.drop_last()[i] == l1[i]);
            assert(l2.drop_last()[i] == l2[i]);
        }
        lemma_counts_agree(l1.drop_last(), l2.drop_last(), patterns);
        assert(flagged(l1[l1.len() - 1], patterns) == flagged(l2[l2.len() - 1], patterns));
    }
}

/// The audit ignores ASCII letter case: two audits with the same patterns,
/// over logs whose lines differ only in the case of ASCII letters, find the
/// same signs in each line, flag the same lines, and count the same number
/// of suspicious lines.
pub proof fn law_audit_ignores_ascii_case(a1: SqliAudit, a2: SqliAudit)
    requires
        a1.wf(),
        a2.wf(),
        a1.pattern_list() == a2.pattern_list(),
        a1.seen().len() == a2.seen().len(),
        forall|i: int|
            0 <= i < a1.seen().len() ==> ascii_fold(#[trigger] a1.seen()[i]) == ascii_fold(
                a2.seen()[i],
            ),
    ensures
        a1.count() == a2.count(),
        forall|i: int|
            0 <= i < a1.seen().len() ==> found_patterns(#[trigger] a1.seen()[i], a1.pattern_list())
                == found_patterns(a2.seen()[i], a2.pattern_list()),
        forall|i: int|
            0 <= i < a1.seen().len() ==> flagged(#[trigger] a1.seen()[i], a1.pattern_list())
                == flagged(a2.seen()[i], a2.pattern_list()),
{
    let p = a1.pattern_list();
    assert forall|i: int| 0 <= i < a1.seen().len() implies found_patterns(
        #[trigger] a1.seen()[i],
        p,
    ) == found_patterns(a2.seen()[i], p) by {
        assert(found_patterns(a1.seen()[i], p) == found_patterns(ascii_fold(a1.seen()[i]), p));
        assert(found_patterns(a2.seen()[i], p) == found_patterns(ascii_fold(a2.seen()[i]), p));
    }
    assert forall|i: int| 0 <= i < a1.seen().len() implies flagged(
        #[trigger] a1.seen()[i],
        p,
    ) == flagged(a2.seen()[i], p) by {
        assert(found_patterns(a1.seen()[i], p) == found_patterns(a2.seen()[i], p));
    }
    lemma_counts_agree(a1.seen(), a2.seen(), p);
}

impl SqliAudit {
    /// The signs this audit looks for.
    pub closed spec fn pattern_list(&self) -> Seq<Seq<char>> {
        self.patterns.deep_view()
    }

    /// The lines examined so far, in order.
    pub closed spec fn seen(&self) -> Seq<Seq<char>> {
        self.seen@
    }

    /// The count of suspicious lines kept so far.
    pub closed spec fn count(&self) -> int {
        self.suspicious as int
    }

    /// The count is the number of suspicious lines among those examined.
    pub open spec fn wf(&self) -> bool {
        &&& self.count() == flagged_count(self.seen(), self.pattern_list())
        &&& case_blind(self.seen(), self.pattern_list())
    }

    /// An audit that looks for `patterns` and has examined nothing yet.
    pub fn new(patterns: Vec<String>) -> (a: SqliAudit)
        ensures
            a.wf(),
            a.pattern_list() == patterns.deep_view(),
            a.seen() == Seq::<Seq<char>>::empty(),
            a.count() == 0,
    {
        SqliAudit { patterns, suspicious: 0, seen: Ghost(Seq::empty()) }
    }

    /// The number of suspicious lines examined so far.
    pub fn suspicious(&self) -> (n: i32)
        ensures
            n == self.count(),
    {
        self.suspicious
    }

    /// Whether `line` holds one of the signs this audit looks for.
    pub fn is_suspicious(&self, line: &str) -> (b: bool)
        ensures
            b == flagged(line@, self.pattern_list()),
    {
        Misc::suspicious_patterns(line, &self.patterns).len() > 0
    }

    /// Examines one log line: a line with a sign of SQL injection is counted
    /// and its report returned; any other line changes nothing but the record
    /// of lines examined.
    pub fn inspect(&mut self, line: &str) -> (r: Option<String>)
        requires
            old(self).wf(),
            old(self).count() < i32::MAX || !flagged(line@, old(self).pattern_list()),
        ensures
            final(self).wf(),
            final(self).pattern_list() == old(self).pattern_list(),
            final(self).seen() == old(self).seen().push(line@),
            r is Some <==> flagged(line@, old(self).pattern_list()),
            r is Some <==> exists|q: Seq<char>|
                #[trigger] old(self).pattern_list().contains(q) && contains(
                    lowercase(line@),
                    lowercase(q),
                ),
            r matches Some(rep) ==> rep@ == suspicion_text(
                line@,
                found_patterns(line@, old(self).pattern_list()),
            ),
            found_patterns(line@, old(self).pattern_list()) == found_patterns(
                ascii_fold(line@),
                old(self).pattern_list(),
            ),
            final(self).count() == old(self).count() + (if flagged(line@, old(self).pattern_list()) {
                1int
            } else {
                0
            }),
    {
        proof {
            law_found_patterns_occur_in_line(line@, self.patterns.deep_view(), Seq::empty());
        }
        let ghost old_seen = self.seen@;
        let ghost q = |l: Seq<char>| flagged(l, self.patterns.deep_view());
        proof {
            reveal_with_fuel(Seq::filter, 1);
            assert(old_seen.push(line@).drop_last() == old_seen);
            assert(old_seen.push(line@).filter(q) == if q(line@) {
                old_seen.filter(q).push(line@)
            } else {
                old_seen.filter(q)
            });
        }
        self.seen = Ghost(old_seen.push(line@));
        let found = Misc::suspicious_patterns(line, &self.patterns);
        if found.len() == 0 {
            return None;
        }
        self.suspicious = self.suspicious + 1;
        Some(Misc::suspicion_report(line, &found))
    }

    /// The closing lines of the audit; the total is the number of
    /// suspicious lines among those examined.
    pub fn summary(&self) -> (r: Vec<String>)
        requires
            self.wf(),
        ensures
            r.deep_view() == seq![
                "\nAnalysis Summary:"@,
                "Total suspicious entries found: "@ + decimal(
                    flagged_count(self.seen(), self.pattern_list()),
                ),
                "Detailed results have been saved to output/sqli_analysis.txt"@,
            ],
    {
        let mut total = owned("Total suspicious entries found: ");
        total.append(decimal_string(self.suspicious as u64).as_str());
        let r = vec![
            owned("\nAnalysis Summary:"),
            total,
            owned("Detailed results have been saved to output/sqli_analysis.txt"),
        ];
        assert(r.deep_view() == seq![
            "\nAnalysis Summary:"@,
            "Total suspicious entries found: "@ + decimal(
                flagged_count(self.seen(), self.pattern_list()),
            ),
            "Detailed results have been saved to output/sqli_analysis.txt"@,
        ]);
        r
    }
}

} // verus!

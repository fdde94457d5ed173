use std::fmt::Write;
use vstd::prelude::*;
use crate::text::{
    is_plain_line, law_lines_have_no_break, law_terminated_lines_read_back, join_path, last_n, lines, lines_of, owned, path_join, starts_with, str_starts_with,
    terminated,
};

verus! {

/// The output command: a text report archive and an HTML report.
#[derive(Debug, Clone)]
pub struct Output {
    /// Collect the text report and pack it into an archive.
    pub output: bool,
    /// Generate the HTML report.
    pub html: bool,
}

/// One step of the output command, in the order it performs them.
#[derive(Debug, PartialEq, Eq, Structural)]
pub enum OutputTask {
    /// Collect the text report and pack it into an archive.
    TextReport,
    /// Generate the HTML report.
    HtmlReport,
}

/// The steps selected by the two switches, in order.
pub open spec fn output_plan(output: bool, html: bool) -> Seq<OutputTask> {
    (if output { seq![OutputTask::TextReport] } else { seq![] })
        + (if html { seq![OutputTask::HtmlReport] } else { seq![] })
}

/// The text of the instant `secs` (seconds since the Unix epoch) in the
/// time zone `offset_secs` east of UTC, laid out by the strftime-like
/// `pattern`; `None` when the instant, the offset or the pattern is not
/// accepted.
pub uninterp spec fn clock_text(secs: int, offset_secs: int, pattern: Seq<char>) -> Option<Seq<char>>;

/// Formats an instant in a fixed time zone.
/// Trusted: `chrono::FixedOffset::east_opt`, `chrono::DateTime::from_timestamp`,
/// `with_timezone` and `format` printed through `Display` depend on the
/// arguments alone (no clock, no local zone); the text is named by
/// `clock_text`, and a rejected offset, instant or pattern gives `None`.
#[verifier::external_body]
fn format_instant(secs: i64, offset_secs: i32, pattern: &str) -> (r: Option<String>)
    ensures
        r matches Some(t) ==> clock_text(secs as int, offset_secs as int, pattern@) == Some(t@),
        r is None ==> clock_text(secs as int, offset_secs as int, pattern@) is None,
{
    let zone = chrono::FixedOffset::east_opt(offset_secs)?;
    let instant = chrono::DateTime::from_timestamp(secs, 0)?.with_timezone(&zone);
    let mut text = String::new();
    write!(text, "{}", instant.format(pattern)).ok()?;
    Some(text)
}

/// Each report is planned exactly when its own switch is on, whatever the
/// other switch says, and at most once; the text report comes before the
/// HTML report.
pub proof fn law_output_plan_follows_switches(output: bool, html: bool)
    ensures
        output_plan(output, html).contains(OutputTask::TextReport) <==> output,
        output_plan(output, html).contains(OutputTask::HtmlReport) <==> html,
        output_plan(output, html).len() == (if output { 1int } else { 0 }) + (if html {
            1int
        } else {
            0
        }),
        output ==> output_plan(output, html)[0] == OutputTask::TextReport,
{
    let plan = output_plan(output, html);
    let t = OutputTask::TextReport;
    let h = OutputTask::HtmlReport;
    if output && html {
        assert(plan =~= seq![t, h]);
        assert(plan[0] == t && plan[1] == h);
    } else if output {
        assert(plan =~= seq![t]);
        assert(plan[0] == t);
    } else if html {
        assert(plan =~= seq![h]);
        assert(plan[0] == h);
    } else {
        assert(plan =~= Seq::<OutputTask>::empty());
    }
}

/// The offset of the report's time zone (UTC+8), in seconds.
pub open spec fn report_zone() -> int {
    28800
}

/// The name of the report archive made at `secs`.
pub open spec fn archive_name_text(secs: int) -> Option<Seq<char>> {
    match clock_text(secs, report_zone(), "%Y%m%d_%H%M%S"@) {
        Some(t) => Some("whoamifuck_report_"@ + t + ".tar.gz"@),
        None => None,
    }
}

/// The lines of the authentication log that the report keeps: the last
/// 20000, in their order, each with its line break.
pub open spec fn login_excerpt_text(content: Seq<char>) -> Seq<char> {
    terminated(last_n(lines(content), 20000))
}

/// The excerpt of the authentication log in the report, read back line by
/// line, gives the log's last 20000 lines (when no line of the log ends with
/// a carriage return that a line break did not follow).
pub proof fn law_login_excerpt_reads_back(content: Seq<char>)
    requires
        forall|k: int|
            0 <= k < lines(content).len() ==> (#[trigger] lines(content)[k]).len() == 0
                || lines(content)[k].last() != '\r',
    ensures
        lines(login_excerpt_text(content)) == last_n(lines(content), 20000),
{
    let all = lines(content);
    let kept = last_n(all, 20000);
    law_lines_have_no_break(content);
    assert forall|k: int| 0 <= k < kept.len() implies is_plain_line(#[trigger] kept[k]) by {
        if all.len() > 20000 {
            assert(kept[k] == all[k + all.len() - 20000]);
        }
    }
    law_terminated_lines_read_back(kept);
}

impl Output {
    /// The steps of the command: the text report, then the HTML report,
    /// each when its switch is on.
    pub fn run(&self) -> (tasks: Vec<OutputTask>)
        ensures
            tasks@ == output_plan(self.output, self.html),
            tasks@.contains(OutputTask::TextReport) <==> self.output,
            tasks@.contains(OutputTask::HtmlReport) <==> self.html,
            tasks@.len() == (if self.output { 1int } else { 0 }) + (if self.html {
                1int
            } else {
                0
            }),
            self.output ==> tasks@[0] == OutputTask::TextReport,
    {
        proof {
            law_output_plan_follows_switches(self.output, self.html);
        }
        let mut tasks: Vec<OutputTask> = Vec::new();
        if self.output {
            tasks.push(OutputTask::TextReport);
        }
        if self.html {
            tasks.push(OutputTask::HtmlReport);
        }
        tasks
    }

    /// The name of the report archive made at `now_secs` (Unix seconds):
    /// `whoamifuck_report_<YYYYmmdd_HHMMSS>.tar.gz` in UTC+8.
    pub fn archive_name(now_secs: i64) -> (r: Option<String>)
        ensures
            r matches Some(n) ==> archive_name_text(now_secs as int) == Some(n@),
            r is None ==> archive_name_text(now_secs as int) is None,
    {
        match format_instant(now_secs, 28800, "%Y%m%d_%H%M%S") {
            Some(t) => {
                let mut n = owned("whoamifuck_report_");
                n.append(t.as_str());
                n.append(".tar.gz");
                Some(n)
            },
            None => None,
        }
    }

    /// The arguments of `tar` that pack the collected files into
    /// `archive_path`.
    pub fn tar_args(archive_path: &str) -> (r: Vec<String>)
        ensures
            r.deep_view() == seq!["czf"@, archive_path@, "chief_*"@],
    {
        let r = vec![owned("czf"), owned(archive_path), owned("chief_*")];
        assert(r.deep_view() == seq!["czf"@, archive_path@, "chief_*"@]);
        r
    }

    /// Whether a file of the output directory is one of the collected files
    /// removed once archived.
    pub fn is_collected_file(name: &str) -> (r: bool)
        ensures
            r == starts_with(name@, "chief_"@),
    {
        str_starts_with(name, "chief_")
    }

    /// The authentication log read: Debian's when `apt` is installed, the
    /// Red Hat one otherwise.
    pub fn auth_log(has_apt: bool) -> (r: String)
        ensures
            has_apt ==> r@ == "/var/log/auth.log"@,
            !has_apt ==> r@ == "/var/log/secure"@,
    {
        if has_apt {
            owned("/var/log/auth.log")
        } else {
            owned("/var/log/secure")
        }
    }

    /// The part of the authentication log kept in the report: its last
    /// 20000 lines, in order, each ended by a line break.
    pub fn login_excerpt(content: &str) -> (r: String)
        ensures
            r@ == login_excerpt_text(content@),
    {
        let ls = lines_of(content);
        let ghost all = ls.deep_view();
        let start: usize = if ls.len() > 20000 {
            ls.len() - 20000
        } else {
            0
        };
        let mut r = String::new();
        let mut i = start;
        assert(all.subrange(start as int, start as int) == Seq::<Seq<char>>::empty());
        while i < ls.len()
            invariant
                start <= i <= ls@.len(),
                all == ls.deep_view(),
                r@ == terminated(all.subrange(start as int, i as int)),
            decreases ls@.len() - i,
        {
            r.append(ls[i].as_str());
            r.append("\n");
            assert(all.subrange(start as int, i + 1).drop_last() == all.subrange(
                start as int,
                i as int,
            ));
            assert(all[i as int] == ls@[i as int]@);
            i = i + 1;
        }
        assert(all.subrange(start as int, ls@.len() as int) == last_n(all, 20000));
        r
    }

    /// The shell history files collected from each home directory.
    pub fn history_files() -> (r: Vec<String>)
        ensures
            r.deep_view() == seq![
                ".bash_history"@,
                ".zsh_history"@,
                ".csh_history"@,
                ".tcsh_history"@,
                ".fish_history"@,
            ],
    {
        let r = vec![
            owned(".bash_history"),
            owned(".zsh_history"),
            owned(".csh_history"),
            owned(".tcsh_history"),
            owned(".fish_history"),
        ];
        assert(r.deep_view() == seq![
            ".bash_history"@,
            ".zsh_history"@,
            ".csh_history"@,
            ".tcsh_history"@,
            ".fish_history"@,
        ]);
        r
    }

    /// The line written before a history file of the user directory
    /// `user_dir`.
    pub fn history_header(user_dir: &str) -> (r: String)
        ensures
            r@ == "-------------| "@ + user_dir@ + " history | ----------------"@ + "\n"@,
    {
        let mut r = owned("-------------| ");
        r.append(user_dir);
        r.append(" history | ----------------");
        r.append("\n");
        r
    }

    /// The periodic cron directories collected.
    pub fn cron_dirs() -> (r: Vec<String>)
        ensures
            r.deep_view() == seq![
                "/etc/cron."@ + "daily"@,
                "/etc/cron."@ + "weekly"@,
                "/etc/cron."@ + "monthly"@,
                "/etc/cron."@ + "hourly"@,
            ],
    {
        let periods = vec![owned("daily"), owned("weekly"), owned("monthly"), owned("hourly")];
        assert(periods.deep_view() == seq!["daily"@, "weekly"@, "monthly"@, "hourly"@]);
        let mut r: Vec<String> = Vec::new();
        let mut i: usize = 0;
        while i < periods.len()
            invariant
                i <= 4,
                periods@.len() == 4,
                periods.deep_view() == seq!["daily"@, "weekly"@, "monthly"@, "hourly"@],
                r.deep_view() == periods.deep_view().take(i as int).map_values(
                    |p: Seq<char>| "/etc/cron."@ + p,
                ),
            decreases 4 - i,
        {
            let mut d = owned("/etc/cron.");
            d.append(periods[i].as_str());
            let ghost before = r.deep_view();
            r.push(d);
            assert(r.deep_view() == before.push(d@));
            assert(periods.deep_view()[i as int] == periods@[i as int]@);
            assert(periods.deep_view().take(i + 1) == periods.deep_view().take(i as int).push(
                periods.deep_view()[i as int],
            ));
            i = i + 1;
        }
        assert(periods.deep_view().take(4) == periods.deep_view());
        r
    }

    /// The directories whose programs are hashed.
    pub fn binary_dirs() -> (r: Vec<String>)
        ensures
            r.deep_view() == seq!["/usr/bin"@, "/usr/local/bin"@, "/bin"@],
    {
        let r = vec![owned("/usr/bin"), owned("/usr/local/bin"), owned("/bin")];
        assert(r.deep_view() == seq!["/usr/bin"@, "/usr/local/bin"@, "/bin"@]);
        r
    }

    /// The authorized-keys file collected: under the home directory, or
    /// under `/root` when no home directory is set.
    pub fn ssh_key_path(home: Option<&str>) -> (r: String)
        ensures
            home matches Some(h) ==> r@ == path_join(h@, ".ssh/authorized_keys"@),
            home is None ==> r@ == path_join("/root"@, ".ssh/authorized_keys"@),
    {
        match home {
            Some(h) => join_path(h, ".ssh/authorized_keys"),
            None => join_path("/root", ".ssh/authorized_keys"),
        }
    }

    /// The file name of the HTML report stamped `stamp`.
    pub fn html_report_name(stamp: &str) -> (r: String)
        ensures
            r@ == "report_"@ + stamp@ + ".html"@,
    {
        let mut r = owned("report_");
        r.append(stamp);
        r.append(".html");
        r
    }
}

} // verus!

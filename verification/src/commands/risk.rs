use vstd::prelude::*;
use crate::text::{
    chosen, contains, is_listed, lemma_chosen_contains, lemma_concat_contains, law_filter_map_keeps, law_filter_membership, is_plain_line, is_word, law_terminated_lines_read_back,
    law_words_are_words, lemma_word_is_plain_line, terminated, lines, lines_of, owned, starts_with, str_contains, str_starts_with,
    words, words_of,
};

verus! {

/// The risk assessment command: a security baseline, the Redis
/// vulnerability checks, the rootkit scanners and the web-shell search.
#[derive(Debug, Clone)]
pub struct Risk {
    /// Run the security baseline (basic system information).
    pub baseline: bool,
    /// Check for known vulnerable service configurations.
    pub risks: bool,
    /// Run the rootkit scanners.
    pub rootkitcheck: bool,
    /// Directory to search for web shells, or the default marker.
    pub webshell: String,
}

/// One step of a risk assessment, in the order the command performs them.
#[derive(Debug, Clone, PartialEq, Eq)]
pub enum RiskTask {
    /// Print the basic system information (no particular network device).
    BaseInfo,
    /// Look for Redis configurations without a password or with a weak one.
    VulnerabilityCheck,
    /// Run chkrootkit and rkhunter and show their alarming lines.
    RootkitCheck,
    /// Search the listed directories for PHP and JSP web shells.
    WebshellScan(Vec<String>),
}

/// A password found in a Redis configuration line.
#[derive(Debug, Clone, PartialEq, Eq)]
pub struct PasswordFinding {
    /// The line printed for it, with the password masked.
    pub notice: String,
    /// The password itself.
    pub password: String,
}

/// The value the web-shell option has when the user gives none.
pub open spec fn webshell_default() -> Seq<char> {
    "[default:/var/www/;/www/wwwroot/..]"@
}

/// The directories searched for web shells for the option value `opt`.
pub open spec fn webshell_dirs(opt: Seq<char>) -> Seq<Seq<char>> {
    if opt == webshell_default() {
        seq!["/www/wwwroot"@, "/var/www"@]
    } else {
        seq![opt]
    }
}

/// The steps selected by the three switches, in order.
pub open spec fn flag_tasks(baseline: bool, risks: bool, rootkitcheck: bool) -> Seq<RiskTask> {
    (if baseline { seq![RiskTask::BaseInfo] } else { seq![] })
        + (if risks { seq![RiskTask::VulnerabilityCheck] } else { seq![] })
        + (if rootkitcheck { seq![RiskTask::RootkitCheck] } else { seq![] })
}

/// The Redis configuration locations that are searched.
pub open spec fn redis_locations() -> Seq<Seq<char>> {
    seq![
        "/etc/redis"@,
        "/usr/local/etc/redis"@,
        "/opt/redis"@,
        "/etc/redis.conf"@,
        "/usr/local/etc/redis.conf"@,
    ]
}

/// The passwords reported as weak.
pub open spec fn weak_password_list() -> Seq<Seq<char>> {
    seq![
        "admin123"@, "test"@, "123456"@, "admin"@, "root"@, "12345678"@, "111111"@,
        "p@ssw0rd"@, "test"@, "qwerty"@, "zxcvbnm"@, "123123"@, "12344321"@, "123qwe"@,
        "password"@, "1qaz"@, "000000"@, "666666"@, "888888"@,
    ]
}

/// The report of one weak password line: `[+] ` and the line.
pub open spec fn weak_hit(line: Seq<char>) -> Option<Seq<char>> {
    if weak_password_list().contains(line) {
        Some("[+] "@ + line)
    } else {
        None
    }
}

/// A chkrootkit output line worth showing.
pub open spec fn chkrootkit_alarm(line: Seq<char>) -> bool {
    contains(line, "INFECTED"@) || contains(line, "WARNING"@)
}

/// An rkhunter output line worth showing.
pub open spec fn rkhunter_alarm(line: Seq<char>) -> bool {
    contains(line, "Warning:"@) || (contains(line, "["@) && contains(line, "failed"@))
}

/// The arguments of `find` that look for `pattern` with `grep -P -i` in
/// the regular files of `dir` named like `glob`.
pub open spec fn webshell_find_argv(dir: Seq<char>, glob: Seq<char>, pattern: Seq<char>) -> Seq<Seq<char>> {
    seq![
        dir, "-type"@, "f"@, "-name"@, glob, "-exec"@, "grep"@, "-P"@, "-i"@, pattern, "{}"@,
        "+"@,
    ]
}

/// The patterns (for `grep -P -i`) that mark a PHP file as a web shell.
pub open spec fn php_rules() -> Seq<Seq<char>> {
    seq![
        r#"array_map\(|pcntl_exec\(|proc_open\(|popen\(|assert\(|phpspy|c99sh|milw0rm|eval\?\(|\(gunerpress|\(base64_decoolcode|spider_bc|shell_exec\(|passthru\(|base64_decode\s?\(|gzuncompress\s?\(|gzinflate|\(\$\$\w+|call_user_func\(|call_user_func_array\(|preg_replace_callback\(|preg_replace\(|register_shutdown_function\(|register_tick_function\(|mb_ereg_replace_callback\(|filter_var\(|ob_start\(|usort\(|uksort\(|uasort\(|GzinFlate\s?\(|\$\w+\(\d+\)\.\$\w+\(\d+\)\.|\$\w+=str_replace\(|eval/\*.*\*/\("#@,
        r#"^(\xff\xd8|\x89\x50|GIF89a|GIF87a|BM|\x00\x00\x01\x00\x01)[\s\S]*<\?\s*php"#@,
        r#"\b(assert|eval|system|exec|shell_exec|passthru|popen|proc_open|pcntl_exec)\b[/*\s]*\(+[/*\s]*((\$_(GET|POST|REQUEST|COOKIE)\[.{0,25})|(base64_decode|gzinflate|gzuncompress|gzdecode|str_rot13)[\s\(]*(\$_(GET|POST|REQUEST|COOKIE)\[.{0,25}))"#@,
        r#"\$\s*(\w+)\s*=[\s\(\{]*(\$_(GET|POST|REQUEST|COOKIE)\[.{0,25});[\s\S]{0,200}\b(assert|eval|system|exec|shell_exec|passthru|popen|proc_open|pcntl_exec)\b[/*\s]*\(+[\s"/*]*(\$\s*\1|((base64_decode|gzinflate|gzuncompress|gzdecode|str_rot13)[\s\("]*\$\s*\1))"#@,
        r#"\b(filter_var|filter_var_array)\b\s*\(.*FILTER_CALLBACK[^;]*((\$_(GET|POST|REQUEST|COOKIE|SERVER)\[.{0,25})|(eval|assert|ass\x65rt|system|exec|shell_exec|passthru|popen|proc_open|pcntl_exec))"#@,
        r#"\b(assert|eval|system|exec|shell_exec|passthru|popen|proc_open|pcntl_exec|include)\b\s*\(\s*(file_get_contents\s*\(\s*)?['""]php://input"#@,
    ]
}

/// The pattern (for `grep -P -i`) that marks a JSP file as a web shell.
pub open spec fn jsp_rule() -> Seq<char> {
    r#"<%@\spage\simport=[\s\S]*\u00\d+\u00\d+|<%@\spage\simport=[\s\S]*Runtime.getRuntime\(\).exec\(request.getParameter\(|Runtime.getRuntime\(\)"#@
}

/// The passwords found are kept in a temporary file, one per line, and read
/// back from it line by line before they are checked: since every password
/// found is a word, reading back gives exactly the passwords written, in
/// order.
pub proof fn law_collected_passwords_read_back(passwords: Seq<Seq<char>>)
    requires
        forall|k: int| 0 <= k < passwords.len() ==> is_word(#[trigger] passwords[k]),
    ensures
        lines(terminated(passwords)) == passwords,
{
    assert forall|k: int| 0 <= k < passwords.len() implies is_plain_line(#[trigger] passwords[k]) by {
        lemma_word_is_plain_line(passwords[k]);
    }
    law_terminated_lines_read_back(passwords);
}

/// Each step is planned exactly when its own switch is on, whatever the
/// other switches say, and at most once; the baseline comes first and the
/// rootkit check last.
pub proof fn law_flag_tasks_follow_switches(s0: bool, s1: bool, s2: bool)
    ensures
        flag_tasks(s0, s1, s2).contains(RiskTask::BaseInfo) <==> s0,
        flag_tasks(s0, s1, s2).contains(RiskTask::VulnerabilityCheck) <==> s1,
        flag_tasks(s0, s1, s2).contains(RiskTask::RootkitCheck) <==> s2,
        flag_tasks(s0, s1, s2).len() == (if s0 { 1int } else { 0 }) + (if s1 { 1int } else { 0 }) + (
        if s2 {
            1int
        } else {
            0
        }),
        s0 ==> flag_tasks(s0, s1, s2)[0] == RiskTask::BaseInfo,
        s2 ==> flag_tasks(s0, s1, s2).last() == RiskTask::RootkitCheck,
{
    let a = chosen(s0, RiskTask::BaseInfo);
    let b = chosen(s1, RiskTask::VulnerabilityCheck);
    let c = chosen(s2, RiskTask::RootkitCheck);
    assert(flag_tasks(s0, s1, s2) == a + b + c);
    lemma_chosen_contains(s0, RiskTask::BaseInfo, RiskTask::BaseInfo);
    lemma_chosen_contains(s1, RiskTask::VulnerabilityCheck, RiskTask::BaseInfo);
    lemma_chosen_contains(s2, RiskTask::RootkitCheck, RiskTask::BaseInfo);
    lemma_chosen_contains(s0, RiskTask::BaseInfo, RiskTask::VulnerabilityCheck);
    lemma_chosen_contains(s1, RiskTask::VulnerabilityCheck, RiskTask::VulnerabilityCheck);
    lemma_chosen_contains(s2, RiskTask::RootkitCheck, RiskTask::VulnerabilityCheck);
    lemma_chosen_contains(s0, RiskTask::BaseInfo, RiskTask::RootkitCheck);
    lemma_chosen_contains(s1, RiskTask::VulnerabilityCheck, RiskTask::RootkitCheck);
    lemma_chosen_contains(s2, RiskTask::RootkitCheck, RiskTask::RootkitCheck);
    lemma_concat_contains(a, b, RiskTask::BaseInfo);
    lemma_concat_contains(a, b, RiskTask::VulnerabilityCheck);
    lemma_concat_contains(a, b, RiskTask::RootkitCheck);
    lemma_concat_contains(a + b, c, RiskTask::BaseInfo);
    lemma_concat_contains(a + b, c, RiskTask::VulnerabilityCheck);
    lemma_concat_contains(a + b, c, RiskTask::RootkitCheck);
    if s0 {
        assert((a + b + c)[0] == a[0]);
    }
    if s2 {
        assert((a + b + c).last() == c[0]);
    }
}

/// A collected password line is reported, as `[+] ` and the line, exactly
/// when it is one of the listed weak passwords, and nothing else is
/// reported.
pub proof fn law_weak_passwords_reported(collected: Seq<char>, l: Seq<char>, x: Seq<char>)
    ensures
        lines(collected).contains(l) && weak_password_list().contains(l) ==> lines(
            collected,
        ).filter_map(|y: Seq<char>| weak_hit(y)).contains("[+] "@ + l),
        lines(collected).filter_map(|y: Seq<char>| weak_hit(y)).contains(x) ==> exists|m: Seq<char>|
            #[trigger] lines(collected).contains(m) && weak_password_list().contains(m) && x == "[+] "@
                + m,
{
    let f = |y: Seq<char>| weak_hit(y);
    if lines(collected).contains(l) && weak_password_list().contains(l) {
        law_filter_map_keeps(lines(collected), f, l);
    }
    if lines(collected).filter_map(f).contains(x) {
        lines(collected).lemma_filter_map_contains(f, x);
    }
}

/// A collected file that holds one password line gives one report line when
/// the password is one of the listed weak passwords, and none otherwise.
pub proof fn law_one_password_file(l: Seq<char>)
    requires
        is_plain_line(l),
    ensures
        lines(l + "\n"@).filter_map(|y: Seq<char>| weak_hit(y)) == if weak_password_list().contains(l) {
            seq!["[+] "@ + l]
        } else {
            Seq::<Seq<char>>::empty()
        },
{
    law_terminated_lines_read_back(seq![l]);
    assert(terminated(seq![l]) =~= l + "\n"@) by {
        assert(seq![l].drop_last() =~= Seq::<Seq<char>>::empty());
        assert(terminated(Seq::<Seq<char>>::empty()) == Seq::<char>::empty());
    }
    Seq::lemma_filter_map_singleton(l, |y: Seq<char>| weak_hit(y));
}

/// The chkrootkit alerts are exactly the lines of its output that mention
/// an infection or a warning, at any position in the line.
pub proof fn law_chkrootkit_alerts_are_alarming_lines(output: Seq<char>, l: Seq<char>)
    ensures
        lines(output).filter(|y: Seq<char>| chkrootkit_alarm(y)).contains(l) <==> (lines(
            output,
        ).contains(l) && (contains(l, "INFECTED"@) || contains(l, "WARNING"@))),
{
    law_filter_membership(lines(output), |y: Seq<char>| chkrootkit_alarm(y), l);
}

/// The rkhunter alerts are exactly the lines of its output that hold
/// `Warning:`, or both a `[` and `failed`, at any position in the line.
pub proof fn law_rkhunter_alerts_are_alarming_lines(output: Seq<char>, l: Seq<char>)
    ensures
        lines(output).filter(|y: Seq<char>| rkhunter_alarm(y)).contains(l) <==> (lines(
            output,
        ).contains(l) && (contains(l, "Warning:"@) || (contains(l, "["@) && contains(
            l,
            "failed"@,
        )))),
{
    law_filter_membership(lines(output), |y: Seq<char>| rkhunter_alarm(y), l);
}

impl Risk {
    /// The steps of the assessment: the baseline, the vulnerability check and
    /// the rootkit check when their switches are on, and always, last, the
    /// web-shell search, in the two default directories when the option
    /// holds its default marker and in the given directory otherwise.
    pub fn run(&self) -> (tasks: Vec<RiskTask>)
        ensures
            tasks@.len() == flag_tasks(self.baseline, self.risks, self.rootkitcheck).len() + 1,
            forall|k: int|
                0 <= k < tasks@.len() - 1 ==> tasks@[k] == flag_tasks(
                    self.baseline,
                    self.risks,
                    self.rootkitcheck,
                )[k],
            tasks@.last() matches RiskTask::WebshellScan(dirs) && dirs.deep_view()
                == webshell_dirs(self.webshell@),
            tasks@.contains(RiskTask::BaseInfo) <==> self.baseline,
            tasks@.contains(RiskTask::VulnerabilityCheck) <==> self.risks,
            tasks@.contains(RiskTask::RootkitCheck) <==> self.rootkitcheck,
    {
        proof {
            law_flag_tasks_follow_switches(self.baseline, self.risks, self.rootkitcheck);
        }
        let mut tasks: Vec<RiskTask> = Vec::new();
        if self.baseline {
            tasks.push(RiskTask::BaseInfo);
        }
        if self.risks {
            tasks.push(RiskTask::VulnerabilityCheck);
        }
        if self.rootkitcheck {
            tasks.push(RiskTask::RootkitCheck);
        }
        let ghost flags = tasks@;
        assert(flags == flag_tasks(self.baseline, self.risks, self.rootkitcheck));
        let mut dirs: Vec<String> = Vec::new();
        if self.webshell == owned("[default:/var/www/;/www/wwwroot/..]") {
            dirs.push(owned("/www/wwwroot"));
            dirs.push(owned("/var/www"));
        } else {
            dirs.push(self.webshell.clone());
        }
        assert(dirs.deep_view() == webshell_dirs(self.webshell@));
        tasks.push(RiskTask::WebshellScan(dirs));
        proof {
            let scan = seq![tasks@.last()];
            assert(tasks@ == flags + scan);
            lemma_concat_contains(flags, scan, RiskTask::BaseInfo);
            lemma_concat_contains(flags, scan, RiskTask::VulnerabilityCheck);
            lemma_concat_contains(flags, scan, RiskTask::RootkitCheck);
        }
        tasks
    }

    /// The places searched for Redis configuration files.
    pub fn redis_config_locations() -> (r: Vec<String>)
        ensures
            r.deep_view() == redis_locations(),
    {
        let r = vec![
            owned("/etc/redis"),
            owned("/usr/local/etc/redis"),
            owned("/opt/redis"),
            owned("/etc/redis.conf"),
            owned("/usr/local/etc/redis.conf"),
        ];
        assert(r.deep_view() == redis_locations());
        r
    }

    /// The arguments of `find` that list the `redis.conf` files at most two
    /// levels below `location`.
    pub fn redis_find_args(location: &str) -> (r: Vec<String>)
        ensures
            r.deep_view() == seq![
                location@,
                "-maxdepth"@,
                "2"@,
                "-name"@,
                "redis.conf"@,
                "-type"@,
                "f"@,
            ],
    {
        let r = vec![
            owned(location),
            owned("-maxdepth"),
            owned("2"),
            owned("-name"),
            owned("redis.conf"),
            owned("-type"),
            owned("f"),
        ];
        assert(r.deep_view() == seq![
            location@,
            "-maxdepth"@,
            "2"@,
            "-name"@,
            "redis.conf"@,
            "-type"@,
            "f"@,
        ]);
        r
    }

    /// The finding for a configuration line that leaves the password
    /// commented out: `<file>: <line>` and a line break, when the line holds
    /// `# requirepass`.
    pub fn unauthorized_access_finding(conf_path: &str, line: &str) -> (r: Option<String>)
        ensures
            r is Some <==> contains(line@, "# requirepass"@),
            r matches Some(f) ==> f@ == conf_path@ + ": "@ + line@ + "\n"@,
    {
        if str_contains(line, "# requirepass") {
            let mut f = owned(conf_path);
            f.append(": ");
            f.append(line);
            f.append("\n");
            Some(f)
        } else {
            None
        }
    }

    /// The password set by a configuration line: for a line that begins with
    /// `requirepass` and has at least two words, the second word, with the
    /// notice `<file>: requirepass ****`.
    pub fn password_finding(conf_path: &str, line: &str) -> (r: Option<PasswordFinding>)
        ensures
            r is Some <==> (starts_with(line@, "requirepass"@) && words(line@).len() >= 2),
            r matches Some(f) ==> {
                &&& f.password@ == words(line@)[1]
                &&& is_word(f.password@)
                &&& f.notice@ == conf_path@ + ": requirepass ****"@
            },
    {
        if !str_starts_with(line, "requirepass") {
            return None;
        }
        let parts = words_of(line);
        if parts.len() < 2 {
            return None;
        }
        let mut notice = owned(conf_path);
        notice.append(": requirepass ****");
        let password = parts[1].clone();
        assert(parts.deep_view()[1] == parts@[1]@);
        proof {
            law_words_are_words(line@);
        }
        Some(PasswordFinding { notice, password })
    }

    /// The passwords considered weak.
    pub fn weak_passwords() -> (r: Vec<String>)
        ensures
            r.deep_view() == weak_password_list(),
    {
        let r = vec![
            owned("admin123"), owned("test"), owned("123456"), owned("admin"), owned("root"),
            owned("12345678"), owned("111111"), owned("p@ssw0rd"), owned("test"), owned("qwerty"),
            owned("zxcvbnm"), owned("123123"), owned("12344321"), owned("123qwe"),
            owned("password"), owned("1qaz"), owned("000000"), owned("666666"), owned("888888"),
        ];
        assert(r.deep_view() == weak_password_list());
        r
    }

    /// The report lines for the collected passwords (one per line of
    /// `collected`): `[+] <password>` for each line that is a weak password,
    /// in order.
    pub fn weak_password_hits(collected: &str) -> (r: Vec<String>)
        ensures
            r.deep_view() == lines(collected@).filter_map(|l: Seq<char>| weak_hit(l)),
            forall|l: Seq<char>|
                #[trigger] lines(collected@).contains(l) && weak_password_list().contains(l)
                    ==> r.deep_view().contains("[+] "@ + l),
            forall|x: Seq<char>|
                #[trigger] r.deep_view().contains(x) ==> exists|m: Seq<char>|
                    #[trigger] lines(collected@).contains(m) && weak_password_list().contains(m) && x
                        == "[+] "@ + m,
    {
        proof {
            let hits = lines(collected@).filter_map(|y: Seq<char>| weak_hit(y));
            assert forall|l: Seq<char>|
                #[trigger] lines(collected@).contains(l) && weak_password_list().contains(l)
                    implies hits.contains("[+] "@ + l) by {
                law_weak_passwords_reported(collected@, l, l);
            }
            assert forall|x: Seq<char>|
                #[trigger] hits.contains(x) implies exists|m: Seq<char>|
                    #[trigger] lines(collected@).contains(m) && weak_password_list().contains(m) && x
                        == "[+] "@ + m by {
                law_weak_passwords_reported(collected@, x, x);
            }
        }
        let weak = Self::weak_passwords();
        let ls = lines_of(collected);
        let ghost all = ls.deep_view();
        let mut r: Vec<String> = Vec::new();
        let mut i: usize = 0;
        while i < ls.len()
            invariant
                i <= ls@.len(),
                all == ls.deep_view(),
                all == lines(collected@),
                weak.deep_view() == weak_password_list(),
                r.deep_view() == all.take(i as int).filter_map(|l: Seq<char>| weak_hit(l)),
            decreases ls@.len() - i,
        {
            assert(all.take(i + 1).drop_last() == all.take(i as int));
            assert(all[i as int] == ls@[i as int]@);
            if is_listed(&weak, ls[i].as_str()) {
                let mut hit = owned("[+] ");
                hit.append(ls[i].as_str());
                let ghost before = r.deep_view();
                r.push(hit);
                assert(r.deep_view() == before.push(hit@));
            }
            i = i + 1;
        }
        assert(all.take(ls@.len() as int) == all);
        r
    }

    /// The scanners the rootkit check runs.
    pub fn rootkit_tools() -> (r: Vec<String>)
        ensures
            r.deep_view() == seq!["chkrootkit"@, "rkhunter"@],
    {
        let r = vec![owned("chkrootkit"), owned("rkhunter")];
        assert(r.deep_view() == seq!["chkrootkit"@, "rkhunter"@]);
        r
    }

    /// The lines of chkrootkit's output that report an infection or a warning.
    pub fn chkrootkit_alerts(output: &str) -> (r: Vec<String>)
        ensures
            r.deep_view() == lines(output@).filter(|l: Seq<char>| chkrootkit_alarm(l)),
            forall|l: Seq<char>|
                #[trigger] r.deep_view().contains(l) <==> (lines(output@).contains(l) && (contains(
                    l,
                    "INFECTED"@,
                ) || contains(l, "WARNING"@))),
    {
        proof {
            let alerts = lines(output@).filter(|y: Seq<char>| chkrootkit_alarm(y));
            assert forall|l: Seq<char>|
                #[trigger] alerts.contains(l) <==> (
                lines(output@).contains(l) && (contains(l, "INFECTED"@) || contains(l, "WARNING"@))) by {
                law_chkrootkit_alerts_are_alarming_lines(output@, l);
            }
        }
        let ls = lines_of(output);
        let ghost all = ls.deep_view();
        let mut r: Vec<String> = Vec::new();
        let mut i: usize = 0;
        while i < ls.len()
            invariant
                i <= ls@.len(),
                all == ls.deep_view(),
                all == lines(output@),
                r.deep_view() == all.take(i as int).filter(|l: Seq<char>| chkrootkit_alarm(l)),
            decreases ls@.len() - i,
        {
            assert(all.take(i + 1).drop_last() == all.take(i as int));
            assert(all[i as int] == ls@[i as int]@);
            let line = ls[i].as_str();
            if str_contains(line, "INFECTED") || str_contains(line, "WARNING") {
                let ghost before = r.deep_view();
                r.push(ls[i].clone());
                assert(r.deep_view() == before.push(ls@[i as int]@));
            }
            proof {
                let f = |l: Seq<char>| chkrootkit_alarm(l);
                reveal_with_fuel(Seq::filter, 1);
                assert(all.take(i + 1).filter(f) == if f(all[i as int]) {
                    all.take(i as int).filter(f).push(all[i as int])
                } else {
                    all.take(i as int).filter(f)
                });
            }
            i = i + 1;
        }
        assert(all.take(ls@.len() as int) == all);
        r
    }

    /// The lines of rkhunter's output that hold a warning or a failed test.
    pub fn rkhunter_alerts(output: &str) -> (r: Vec<String>)
        ensures
            r.deep_view() == lines(output@).filter(|l: Seq<char>| rkhunter_alarm(l)),
            forall|l: Seq<char>|
                #[trigger] r.deep_view().contains(l) <==> (lines(output@).contains(l) && (contains(
                    l,
                    "Warning:"@,
                ) || (contains(l, "["@) && contains(l, "failed"@)))),
    {
        proof {
            let alerts = lines(output@).filter(|y: Seq<char>| rkhunter_alarm(y));
            assert forall|l: Seq<char>|
                #[trigger] alerts.contains(l) <==> (
                lines(output@).contains(l) && (contains(l, "Warning:"@) || (contains(l, "["@)
                    && contains(l, "failed"@)))) by {
                law_rkhunter_alerts_are_alarming_lines(output@, l);
            }
        }
        let ls = lines_of(output);
        let ghost all = ls.deep_view();
        let mut r: Vec<String> = Vec::new();
        let mut i: usize = 0;
        while i < ls.len()
            invariant
                i <= ls@.len(),
                all == ls.deep_view(),
                all == lines(output@),
                r.deep_view() == all.take(i as int).filter(|l: Seq<char>| rkhunter_alarm(l)),
            decreases ls@.len() - i,
        {
            assert(all.take(i + 1).drop_last() == all.take(i as int));
            assert(all[i as int] == ls@[i as int]@);
            let line = ls[i].as_str();
            if str_contains(line, "Warning:") || (str_contains(line, "[") && str_contains(
                line,
                "failed",
            )) {
                let ghost before = r.deep_view();
                r.push(ls[i].clone());
                assert(r.deep_view() == before.push(ls@[i as int]@));
            }
            proof {
                let f = |l: Seq<char>| rkhunter_alarm(l);
                reveal_with_fuel(Seq::filter, 1);
                assert(all.take(i + 1).filter(f) == if f(all[i as int]) {
                    all.take(i as int).filter(f).push(all[i as int])
                } else {
                    all.take(i as int).filter(f)
                });
            }
            i = i + 1;
        }
        assert(all.take(ls@.len() as int) == all);
        r
    }
    /// The patterns that mark a PHP file as a web shell.
    pub fn php_webshell_rules() -> (r: Vec<String>)
        ensures
            r.deep_view() == php_rules(),
    {
        let r = vec![
            owned(r#"array_map\(|pcntl_exec\(|proc_open\(|popen\(|assert\(|phpspy|c99sh|milw0rm|eval\?\(|\(gunerpress|\(base64_decoolcode|spider_bc|shell_exec\(|passthru\(|base64_decode\s?\(|gzuncompress\s?\(|gzinflate|\(\$\$\w+|call_user_func\(|call_user_func_array\(|preg_replace_callback\(|preg_replace\(|register_shutdown_function\(|register_tick_function\(|mb_ereg_replace_callback\(|filter_var\(|ob_start\(|usort\(|uksort\(|uasort\(|GzinFlate\s?\(|\$\w+\(\d+\)\.\$\w+\(\d+\)\.|\$\w+=str_replace\(|eval/\*.*\*/\("#),
            owned(r#"^(\xff\xd8|\x89\x50|GIF89a|GIF87a|BM|\x00\x00\x01\x00\x01)[\s\S]*<\?\s*php"#),
            owned(r#"\b(assert|eval|system|exec|shell_exec|passthru|popen|proc_open|pcntl_exec)\b[/*\s]*\(+[/*\s]*((\$_(GET|POST|REQUEST|COOKIE)\[.{0,25})|(base64_decode|gzinflate|gzuncompress|gzdecode|str_rot13)[\s\(]*(\$_(GET|POST|REQUEST|COOKIE)\[.{0,25}))"#),
            owned(r#"\$\s*(\w+)\s*=[\s\(\{]*(\$_(GET|POST|REQUEST|COOKIE)\[.{0,25});[\s\S]{0,200}\b(assert|eval|system|exec|shell_exec|passthru|popen|proc_open|pcntl_exec)\b[/*\s]*\(+[\s"/*]*(\$\s*\1|((base64_decode|gzinflate|gzuncompress|gzdecode|str_rot13)[\s\("]*\$\s*\1))"#),
            owned(r#"\b(filter_var|filter_var_array)\b\s*\(.*FILTER_CALLBACK[^;]*((\$_(GET|POST|REQUEST|COOKIE|SERVER)\[.{0,25})|(eval|assert|ass\x65rt|system|exec|shell_exec|passthru|popen|proc_open|pcntl_exec))"#),
            owned(r#"\b(assert|eval|system|exec|shell_exec|passthru|popen|proc_open|pcntl_exec|include)\b\s*\(\s*(file_get_contents\s*\(\s*)?['""]php://input"#),
        ];
        assert(r.deep_view() == php_rules());
        r
    }

    /// The pattern that marks a JSP file as a web shell.
    pub fn jsp_webshell_rule() -> (r: String)
        ensures
            r@ == jsp_rule(),
    {
        owned(r#"<%@\spage\simport=[\s\S]*\u00\d+\u00\d+|<%@\spage\simport=[\s\S]*Runtime.getRuntime\(\).exec\(request.getParameter\(|Runtime.getRuntime\(\)"#)
    }

    /// The arguments of `find` that print the lines matching `pattern`
    /// (Perl syntax, any case) in the regular files under `dir` whose names
    /// match `glob`.
    pub fn webshell_find_args(dir: &str, glob: &str, pattern: &str) -> (r: Vec<String>)
        ensures
            r.deep_view() == webshell_find_argv(dir@, glob@, pattern@),
    {
        let r = vec![
            owned(dir), owned("-type"), owned("f"), owned("-name"), owned(glob), owned("-exec"),
            owned("grep"), owned("-P"), owned("-i"), owned(pattern), owned("{}"), owned("+"),
        ];
        assert(r.deep_view() == webshell_find_argv(dir@, glob@, pattern@));
        r
    }
}

} // verus!

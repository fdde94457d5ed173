use whoamifuck::commands::output::{Output, OutputTask};

fn strings(items: &[&str]) -> Vec<String> {
    items.iter().map(|s| s.to_string()).collect()
}

#[test]
fn output_run_follows_switches() {
    assert_eq!(Output { output: true, html: true }.run(), vec![OutputTask::TextReport, OutputTask::HtmlReport]);
    assert_eq!(Output { output: false, html: true }.run(), vec![OutputTask::HtmlReport]);
    assert!(Output { output: false, html: false }.run().is_empty());
}

#[test]
fn archive_is_named_in_utc_plus_eight() {
    assert_eq!(Output::archive_name(0), Some("whoamifuck_report_19700101_080000.tar.gz".to_string()));
    assert_eq!(
        Output::archive_name(1_700_000_000),
        Some("whoamifuck_report_20231115_061320.tar.gz".to_string())
    );
    assert_eq!(Output::archive_name(i64::MAX), None);
    assert_eq!(Output::tar_args("/o/text/a.tar.gz"), strings(&["czf", "/o/text/a.tar.gz", "chief_*"]));
}

#[test]
fn collected_files_and_sources() {
    assert!(Output::is_collected_file("chief_history_allusers.txt"));
    assert!(!Output::is_collected_file("text"));
    assert_eq!(Output::auth_log(true), "/var/log/auth.log");
    assert_eq!(Output::auth_log(false), "/var/log/secure");
    assert_eq!(Output::ssh_key_path(None), "/root/.ssh/authorized_keys");
    assert_eq!(Output::ssh_key_path(Some("/home/bob")), "/home/bob/.ssh/authorized_keys");
    assert_eq!(
        Output::cron_dirs(),
        strings(&["/etc/cron.daily", "/etc/cron.weekly", "/etc/cron.monthly", "/etc/cron.hourly"])
    );
    assert_eq!(Output::binary_dirs(), strings(&["/usr/bin", "/usr/local/bin", "/bin"]));
    assert_eq!(Output::history_files().len(), 5);
    assert_eq!(
        Output::history_header("/home/bob"),
        "-------------| /home/bob history | ----------------\n"
    );
    assert_eq!(Output::html_report_name("20240101_000000"), "report_20240101_000000.html");
}

#[test]
fn login_excerpt_keeps_last_lines() {
    assert_eq!(Output::login_excerpt("a\nb\r\nc"), "a\nb\nc\n");
    assert_eq!(Output::login_excerpt(""), "");
    let mut log = String::new();
    for i in 0..20005 {
        log.push_str(&format!("line {i}\n"));
    }
    let excerpt = Output::login_excerpt(&log);
    let kept: Vec<&str> = excerpt.lines().collect();
    assert_eq!(kept.len(), 20000);
    assert_eq!(kept[0], "line 5");
    assert_eq!(kept[19999], "line 20004");
}

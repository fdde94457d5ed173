use whoamifuck::commands::misc::{extract_title, FileOrUrl, Misc, MiscTask, SqliAudit};

fn strings(items: &[&str]) -> Vec<String> {
    items.iter().map(|s| s.to_string()).collect()
}

#[test]
fn urls_and_files_are_told_apart() {
    assert_eq!(FileOrUrl::from_str("https://example.com"), FileOrUrl::Url("https://example.com/".to_string()));
    assert_eq!(FileOrUrl::from_str("urls.txt"), FileOrUrl::File("urls.txt".to_string()));
    assert_eq!(FileOrUrl::from_str("/tmp/list"), FileOrUrl::File("/tmp/list".to_string()));
    assert_eq!(Misc::scan_target("http://a.b/c d"), Some("http://a.b/c%20d".to_string()));
    assert_eq!(Misc::scan_target("not a url"), None);
}

#[test]
fn run_plans_page_check_then_log_audit() {
    let misc = Misc {
        code: Some(FileOrUrl::File("urls.txt".to_string())),
        sqletlog: Some("/var/log/nginx/access.log".to_string()),
        auto_run: None,
        ext: "[default:~/.whok/chief-inspector.conf]".to_string(),
    };
    assert_eq!(
        misc.run(),
        vec![
            MiscTask::ScanUrlList("urls.txt".to_string()),
            MiscTask::SqlInjectionAudit("/var/log/nginx/access.log".to_string())
        ]
    );
    let misc = Misc { code: Some(FileOrUrl::Url("https://e.com/".to_string())), sqletlog: None, auto_run: None, ext: String::new() };
    assert_eq!(misc.run(), vec![MiscTask::ScanUrl("https://e.com/".to_string())]);
    let misc = Misc { code: None, sqletlog: None, auto_run: Some("x".to_string()), ext: String::new() };
    assert!(misc.run().is_empty());
}

#[test]
fn titles_are_the_first_one_line_title() {
    assert_eq!(extract_title("<html><title>Hi</title></html>"), Some("Hi".to_string()));
    assert_eq!(extract_title("<title>a\nb</title>"), None);
    assert_eq!(extract_title("<title>x</title><title>y</title>"), Some("x".to_string()));
    assert_eq!(extract_title("<title>a\n</title><title>b</title>"), Some("b".to_string()));
    assert_eq!(extract_title("<TITLE>up</TITLE>"), None);
    assert_eq!(extract_title("<title></title>"), Some(String::new()));
    let t = extract_title("<head><title>Page\r</title>").unwrap();
    assert!(!t.contains('\n'));
    assert_eq!(t, "Page\r");
}

#[test]
fn status_lines() {
    assert_eq!(
        Misc::http_info_line("https://e.com/", 200, 42, "<title>T</title>"),
        "[INFO] https://e.com/ [200] [42] [T]\n"
    );
    assert_eq!(
        Misc::http_info_line("https://e.com/", 404, 0, ""),
        "[INFO] https://e.com/ [404] [0] [No title found]\n"
    );
    assert_eq!(Misc::http_error_line("https://e.com/", "timeout"), "[ERROR] https://e.com/ - timeout\n");
}

#[test]
fn audited_logs() {
    assert_eq!(
        Misc::sqli_log_targets(""),
        strings(&["/var/log/apache2/access.log", "/var/log/apache/access.log", "/var/log/nginx/access.log"])
    );
    assert_eq!(Misc::sqli_log_targets("/tmp/a.log"), strings(&["/tmp/a.log"]));
}

#[test]
fn injection_signs_are_found_in_pattern_order() {
    assert_eq!(Misc::sql_injection_patterns().len(), 40);
    let all = Misc::sql_injection_patterns();
    assert_eq!(
        Misc::suspicious_patterns("GET /index.php?id=1 UNION SELECT", &all),
        strings(&["select", "union", "="])
    );
    assert!(Misc::suspicious_patterns("hello", &all).is_empty());
    assert_eq!(Misc::suspicious_patterns("SLEEP(5)", &all), strings(&["sleep"]));
    assert_eq!(Misc::suspicious_patterns("x", &strings(&["X", "y"])), strings(&["X"]));
}

#[test]
fn audit_counts_and_reports_suspicious_lines() {
    let mut audit = SqliAudit::new(Misc::sql_injection_patterns());
    assert_eq!(audit.suspicious(), 0);
    assert_eq!(audit.inspect("hello"), None);
    assert_eq!(audit.suspicious(), 0);
    assert!(audit.is_suspicious("id=1' UNION"));
    let report = audit.inspect("id=1' UNION").unwrap();
    assert_eq!(audit.suspicious(), 1);
    let expected = format!(
        "[SUSPICIOUS] Found patterns: {}\nLog entry: {}\n{}\n",
        "union, ', =",
        "id=1' UNION",
        "-".repeat(80)
    );
    assert_eq!(report, expected);
    assert_eq!(
        audit.summary(),
        strings(&[
            "\nAnalysis Summary:",
            "Total suspicious entries found: 1",
            "Detailed results have been saved to output/sqli_analysis.txt"
        ])
    );
}

#[test]
fn more_patterns_count_more() {
    let log = ["GET /a?id=1 union select 1", "GET /b", "POST /c sleep(3)", "q=DROP table"];
    let small = strings(&["union", "drop"]);
    let large = strings(&["union", "sleep", "drop"]);
    let mut a1 = SqliAudit::new(small.clone());
    let mut a2 = SqliAudit::new(large.clone());
    let mut none = SqliAudit::new(Vec::new());
    for line in log {
        let f1 = Misc::suspicious_patterns(line, &small);
        let f2 = Misc::suspicious_patterns(line, &large);
        assert!(f1.iter().all(|p| f2.contains(p)));
        a1.inspect(line);
        a2.inspect(line);
        assert_eq!(none.inspect(line), None);
    }
    assert_eq!(a1.suspicious(), 2);
    assert_eq!(a2.suspicious(), 3);
    assert_eq!(none.suspicious(), 0);
}

#[test]
fn log_notices_depend_on_how_the_log_was_named() {
    assert_eq!(Misc::log_target_notices(true, "/a.log", true), strings(&["\nChecking /a.log"]));
    assert_eq!(
        Misc::log_target_notices(true, "/a.log", false),
        strings(&["\nChecking /a.log", "File not found: /a.log"])
    );
    assert_eq!(Misc::log_target_notices(false, "/b.log", true), strings(&["\nChecking /b.log"]));
    assert_eq!(Misc::log_target_notices(false, "/b.log", false), strings(&["\nFile not found: /b.log"]));
}

#[test]
fn audit_ignores_ascii_case() {
    let patterns = Misc::sql_injection_patterns();
    let lower = ["get /a?id=1 union select 1", "get /b", "q=drop table", "sleep(3) or 1"];
    let upper = ["GET /a?ID=1 UNION SELECT 1", "GET /B", "Q=DROP TABLE", "SLEEP(3) OR 1"];
    let mut a1 = SqliAudit::new(patterns.clone());
    let mut a2 = SqliAudit::new(patterns.clone());
    for (l, u) in lower.iter().zip(upper.iter()) {
        assert_eq!(Misc::suspicious_patterns(l, &patterns), Misc::suspicious_patterns(u, &patterns));
        assert_eq!(a1.inspect(l).is_some(), a2.inspect(u).is_some());
    }
    assert_eq!(a1.suspicious(), a2.suspicious());
    assert_eq!(a1.summary(), a2.summary());
}

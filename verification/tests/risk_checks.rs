use whoamifuck::commands::risk::{PasswordFinding, Risk, RiskTask};

fn strings(items: &[&str]) -> Vec<String> {
    items.iter().map(|s| s.to_string()).collect()
}

fn risk(baseline: bool, risks: bool, rootkitcheck: bool, webshell: &str) -> Risk {
    Risk { baseline, risks, rootkitcheck, webshell: webshell.to_string() }
}

#[test]
fn default_run_only_scans_default_web_roots() {
    let tasks = risk(false, false, false, "[default:/var/www/;/www/wwwroot/..]").run();
    assert_eq!(tasks, vec![RiskTask::WebshellScan(strings(&["/www/wwwroot", "/var/www"]))]);
}

#[test]
fn every_switch_runs_in_order_before_the_web_shell_scan() {
    let tasks = risk(true, true, true, "/srv/www").run();
    assert_eq!(
        tasks,
        vec![
            RiskTask::BaseInfo,
            RiskTask::VulnerabilityCheck,
            RiskTask::RootkitCheck,
            RiskTask::WebshellScan(strings(&["/srv/www"])),
        ]
    );
    let tasks = risk(false, true, false, "").run();
    assert_eq!(tasks, vec![RiskTask::VulnerabilityCheck, RiskTask::WebshellScan(strings(&[""]))]);
}

#[test]
fn redis_search_locations_and_arguments() {
    assert_eq!(
        Risk::redis_config_locations(),
        strings(&[
            "/etc/redis",
            "/usr/local/etc/redis",
            "/opt/redis",
            "/etc/redis.conf",
            "/usr/local/etc/redis.conf"
        ])
    );
    assert_eq!(
        Risk::redis_find_args("/opt/redis"),
        strings(&["/opt/redis", "-maxdepth", "2", "-name", "redis.conf", "-type", "f"])
    );
}

#[test]
fn commented_out_password_is_reported() {
    assert_eq!(
        Risk::unauthorized_access_finding("/etc/redis/redis.conf", "# requirepass foobared"),
        Some("/etc/redis/redis.conf: # requirepass foobared\n".to_string())
    );
    assert_eq!(Risk::unauthorized_access_finding("/etc/redis.conf", "requirepass x"), None);
}

#[test]
fn configured_password_is_extracted_and_masked() {
    assert_eq!(
        Risk::password_finding("/etc/redis.conf", "requirepass   hunter2  extra"),
        Some(PasswordFinding {
            notice: "/etc/redis.conf: requirepass ****".to_string(),
            password: "hunter2".to_string(),
        })
    );
    assert_eq!(Risk::password_finding("/etc/redis.conf", "requirepass"), None);
    assert_eq!(Risk::password_finding("/etc/redis.conf", "# requirepass x"), None);
    assert_eq!(Risk::password_finding("/etc/redis.conf", "requirepassword abc").map(|f| f.password), Some("abc".to_string()));
}

#[test]
fn weak_passwords_are_flagged_in_order() {
    assert_eq!(Risk::weak_passwords().len(), 19);
    assert_eq!(
        Risk::weak_password_hits("admin\nStr0ng!pass\n123456\n"),
        strings(&["[+] admin", "[+] 123456"])
    );
    assert!(Risk::weak_password_hits("").is_empty());
    assert_eq!(Risk::weak_password_hits("test\ntest"), strings(&["[+] test", "[+] test"]));
}

#[test]
fn passwords_written_one_per_line_read_back_unchanged() {
    let lines = ["requirepass admin", "requirepass  p@ssw0rd", "requirepass\tnotweak123"];
    let mut file = String::new();
    let mut found = Vec::new();
    for line in lines {
        let f = Risk::password_finding("/etc/redis.conf", line).unwrap();
        file.push_str(&f.password);
        file.push('\n');
        found.push(f.password);
    }
    assert_eq!(whoamifuck::text::lines_of(&file), found);
    assert_eq!(Risk::weak_password_hits(&file), strings(&["[+] admin", "[+] p@ssw0rd"]));
}

#[test]
fn rootkit_scanner_alarms() {
    assert_eq!(Risk::rootkit_tools(), strings(&["chkrootkit", "rkhunter"]));
    assert_eq!(
        Risk::chkrootkit_alerts("Checking `ls'... not infected\nChecking `x'... INFECTED\nWARNING: y\n"),
        strings(&["Checking `x'... INFECTED", "WARNING: y"])
    );
    assert_eq!(
        Risk::rkhunter_alerts("Warning: foo\n[ failed ]\n[ OK ]\nfailed alone\n"),
        strings(&["Warning: foo", "[ failed ]"])
    );
}

#[test]
fn web_shell_search_commands() {
    let php = Risk::php_webshell_rules();
    assert_eq!(php.len(), 6);
    assert!(php[0].starts_with("array_map\\(|pcntl_exec\\("));
    assert!(Risk::jsp_webshell_rule().ends_with("Runtime.getRuntime\\(\\)"));
    assert_eq!(
        Risk::webshell_find_args("/var/www", "*.php", "eval"),
        strings(&["/var/www", "-type", "f", "-name", "*.php", "-exec", "grep", "-P", "-i", "eval", "{}", "+"])
    );
}

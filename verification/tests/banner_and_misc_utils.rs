use whoamifuck::commands::complete::{Complete, Shell};
use whoamifuck::update::{check_version, VersionCheck, VersionError};
use whoamifuck::utils::banner::{cli_banner, get_banner};
use whoamifuck::utils::system_utils::{
    default_route_args, ip_addr_args, labelled_output, nameserver_lines, section_header,
};

const ART: [&str; 6] = [
    " ██╗    ██╗██╗  ██╗ ██████╗  █████╗ ███╗   ███╗██╗    ███████╗██╗   ██╗ ██████╗██╗  ██╗",
    " ██║root██║██║  ██║██╔═══██╗██╔══██╗████╗ ████║██║    ██╔════╝██║   ██║██╔════╝██║ ██╔╝",
    " ██║ █╗ ██║███████║██║777██║███████║██╔████╔██║██║    █████╗  ██║   ██║██║<bug>█████╔╝ ",
    " ██║███╗██║██╔══██║██║   ██║██╔══██║██║╚██╔╝██║██║    ██╔══╝  ██║   ██║██║     ██╔═██╗ ",
    " ╚███╔███╔╝██║  ██║╚██████╔╝██║  ██║██║ ╚═╝ ██║██║    ██║     ╚██████╔╝╚██████╗██║  ██╗",
    "  ╚══╝╚══╝ ╚═╝  ╚═╝ ╚═════╝ ╚═╝  ╚═╝╚═╝     ╚═╝╚═╝    ╚═╝ who! ╚═════╝  ╚═════╝╚═╝  ╚═╝",
];

fn expected_banner(version: &str, authors: &str, info: &str, colored: bool) -> String {
    let paint = |code: &str, s: &str| if colored { format!("\x1b[{code}m{s}\x1b[0m") } else { s.to_string() };
    let mut banner = String::new();
    for row in ART {
        banner.push('\n');
        banner.push_str(&paint("91", row));
    }
    banner.push_str(&format!(
        "\n       Hi whoamifuck          v{}                by  - {}",
        version,
        paint("94", authors)
    ));
    format!("\n{banner}\n{}", paint("1;33", info))
}

#[test]
fn help_banner_layout() {
    let info = format!(
        "{}\n{}\n{}\n{}\n{}",
        "_".repeat(60),
        format!(": {:<50}", "代码仓库地址: https://github.com/zhuima/whoamifuck"),
        format!(": {:<50}", "小报童甄选专栏: https://xiaobaot.best"),
        format!(": {:<50}", "A Rust-based system security analysis and assessment"),
        "-".repeat(60)
    );
    let b = get_banner("1.2.3", "zhuima");
    assert!(
        b == expected_banner("1.2.3", "zhuima", &info, false)
            || b == expected_banner("1.2.3", "zhuima", &info, true)
    );
}

#[test]
fn cli_banner_layout() {
    let info = format!(
        "{}\n{}\n{}\n{}",
        "________________________________________________________",
        ": https://github.com/zhuima/whoamifuck                  :",
        ": A Rust-based system security analysis and assessment  :",
        " ------------------------------------------------------"
    );
    let b = cli_banner("0.1.0", "someone");
    assert!(
        b == expected_banner("0.1.0", "someone", &info, false)
            || b == expected_banner("0.1.0", "someone", &info, true)
    );
}

#[test]
fn completion_hints_per_shell() {
    let hints = Complete { shell: Shell::Zsh }.setup_hints();
    assert_eq!(hints, vec!["\nTo enable completions, run:\n", "# Add to your ~/.zshrc:", "source <(whoamifuck complete zsh)"]);
    assert_eq!(Complete { shell: Shell::Bash }.setup_hints().len(), 8);
    assert_eq!(Complete { shell: Shell::Elvish }.setup_hints()[2], "eval (whoamifuck complete elvish | slurp)");
}

#[test]
fn version_comparison() {
    assert_eq!(
        check_version("0.1.0", Some("0.2.0")),
        Ok(VersionCheck::UpdateAvailable { current: "0.1.0".to_string(), latest: "0.2.0".to_string() })
    );
    assert_eq!(check_version("0.2.0", Some("0.2.0")), Ok(VersionCheck::UpToDate));
    assert_eq!(check_version("0.3.0", Some("0.2.0")), Ok(VersionCheck::UpToDate));
    assert_eq!(check_version("0.1.0", None), Ok(VersionCheck::CheckFailed));
    assert_eq!(check_version("bad", None), Ok(VersionCheck::CheckFailed));
    assert_eq!(check_version("x", Some("1.0.0")), Err(VersionError::InvalidCurrent));
    assert_eq!(check_version("x", Some("y")), Err(VersionError::InvalidCurrent));
    assert_eq!(check_version("1.0.0", Some("v1.1")), Err(VersionError::InvalidLatest));
    assert!(matches!(check_version("1.0.0-alpha", Some("1.0.0")), Ok(VersionCheck::UpdateAvailable { .. })));
}

#[test]
fn base_information_helpers() {
    assert_eq!(section_header("Port Open Status:"), format!("\n{}\nPort Open Status:\n{}\n", "=".repeat(50), "=".repeat(50)));
    assert_eq!(labelled_output("Hostname", "  box01\n"), "Hostname: box01");
    assert_eq!(ip_addr_args(Some("eth0")), vec!["addr", "show", "eth0"]);
    assert_eq!(ip_addr_args(None), vec!["addr"]);
    assert_eq!(default_route_args(), vec!["route", "show", "default"]);
    assert_eq!(
        nameserver_lines("# comment\nnameserver 1.1.1.1\nsearch lan\nnameserver 8.8.8.8\n"),
        vec!["nameserver 1.1.1.1", "nameserver 8.8.8.8"]
    );
}

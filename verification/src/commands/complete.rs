use vstd::prelude::*;
use crate::text::owned;

verus! {

/// The shells completion scripts can be generated for.
#[derive(Debug, PartialEq, Eq, Structural, Clone, Copy)]
pub enum Shell {
    Bash,
    Zsh,
    Fish,
    Powershell,
    Elvish,
}

/// The completion command: a completion script for one shell.
#[derive(Debug, Clone)]
pub struct Complete {
    /// The shell to generate the script for.
    pub shell: Shell,
}

/// The advice printed after the completion script of `shell`, line by line.
pub open spec fn setup_advice(shell: Shell) -> Seq<Seq<char>> {
    match shell {
        Shell::Bash => seq![
            "\nTo enable completions, run:\n"@,
            "# Install bash-completion if not already installed:"@,
            "# For Debian/Ubuntu:"@,
            "apt-get install bash-completion"@,
            "# For CentOS/RHEL:"@,
            "yum install bash-completion"@,
            "\n# Add to your ~/.bashrc:"@,
            "source <(whoamifuck complete bash)"@,
        ],
        Shell::Zsh => seq![
            "\nTo enable completions, run:\n"@,
            "# Add to your ~/.zshrc:"@,
            "source <(whoamifuck complete zsh)"@,
        ],
        Shell::Fish => seq![
            "\nTo enable completions, run:\n"@,
            "# Fish will automatically load completions from:"@,
            "whoamifuck complete fish > ~/.config/fish/completions/whoamifuck.fish"@,
        ],
        Shell::Powershell => seq![
            "\nTo enable completions, run:\n"@,
            "# Add to your PowerShell profile:"@,
            "whoamifuck complete powershell | Out-String | Invoke-Expression"@,
        ],
        Shell::Elvish => seq![
            "\nTo enable completions, run:\n"@,
            "# Add to your ~/.elvish/rc.elv:"@,
            "eval (whoamifuck complete elvish | slurp)"@,
        ],
    }
}

impl Complete {
    /// The lines of advice, printed to standard error after the script,
    /// that tell how to enable the completions in the chosen shell.
    pub fn setup_hints(&self) -> (r: Vec<String>)
        ensures
            r.deep_view() == setup_advice(self.shell),
    {
        let r = match self.shell {
            Shell::Bash => vec![
                owned("\nTo enable completions, run:\n"),
                owned("# Install bash-completion if not already installed:"),
                owned("# For Debian/Ubuntu:"),
                owned("apt-get install bash-completion"),
                owned("# For CentOS/RHEL:"),
                owned("yum install bash-completion"),
                owned("\n# Add to your ~/.bashrc:"),
                owned("source <(whoamifuck complete bash)"),
            ],
            Shell::Zsh => vec![
                owned("\nTo enable completions, run:\n"),
                owned("# Add to your ~/.zshrc:"),
                owned("source <(whoamifuck complete zsh)"),
            ],
            Shell::Fish => vec![
                owned("\nTo enable completions, run:\n"),
                owned("# Fish will automatically load completions from:"),
                owned("whoamifuck complete fish > ~/.config/fish/completions/whoamifuck.fish"),
            ],
            Shell::Powershell => vec![
                owned("\nTo enable completions, run:\n"),
                owned("# Add to your PowerShell profile:"),
                owned("whoamifuck complete powershell | Out-String | Invoke-Expression"),
            ],
            Shell::Elvish => vec![
                owned("\nTo enable completions, run:\n"),
                owned("# Add to your ~/.elvish/rc.elv:"),
                owned("eval (whoamifuck complete elvish | slurp)"),
            ],
        };
        assert(r.deep_view() == setup_advice(self.shell));
        r
    }
}

} // verus!

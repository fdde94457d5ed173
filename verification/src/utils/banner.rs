use vstd::prelude::*;
use crate::style::{bright_blue, bright_red, painted, yellow_bold};
use crate::text::{copies, pad_right, pad_right_str, repeat_char};

verus! {

/// Width of the rules above and below the banner's information box.
pub const BANNER_WIDTH: usize = 60;

/// Row `k` (0 to 5) of the ASCII-art title.
pub open spec fn art_row(k: int) -> Seq<char> {
    if k == 0 {
        " ██╗    ██╗██╗  ██╗ ██████╗  █████╗ ███╗   ███╗██╗    ███████╗██╗   ██╗ ██████╗██╗  ██╗"@
    } else if k == 1 {
        " ██║root██║██║  ██║██╔═══██╗██╔══██╗████╗ ████║██║    ██╔════╝██║   ██║██╔════╝██║ ██╔╝"@
    } else if k == 2 {
        " ██║ █╗ ██║███████║██║777██║███████║██╔████╔██║██║    █████╗  ██║   ██║██║<bug>█████╔╝ "@
    } else if k == 3 {
        " ██║███╗██║██╔══██║██║   ██║██╔══██║██║╚██╔╝██║██║    ██╔══╝  ██║   ██║██║     ██╔═██╗ "@
    } else if k == 4 {
        " ╚███╔███╔╝██║  ██║╚██████╔╝██║  ██║██║ ╚═╝ ██║██║    ██║     ╚██████╔╝╚██████╗██║  ██╗"@
    } else {
        "  ╚══╝╚══╝ ╚═╝  ╚═╝ ╚═════╝ ╚═╝  ╚═╝╚═╝     ╚═╝╚═╝    ╚═╝ who! ╚═════╝  ╚═════╝╚═╝  ╚═╝"@
    }
}

/// Row `k` of the ASCII-art title.
fn art_row_text(k: usize) -> (r: &'static str)
    requires
        k < 6,
    ensures
        r@ == art_row(k as int),
{
    if k == 0 {
        " ██╗    ██╗██╗  ██╗ ██████╗  █████╗ ███╗   ███╗██╗    ███████╗██╗   ██╗ ██████╗██╗  ██╗"
    } else if k == 1 {
        " ██║root██║██║  ██║██╔═══██╗██╔══██╗████╗ ████║██║    ██╔════╝██║   ██║██╔════╝██║ ██╔╝"
    } else if k == 2 {
        " ██║ █╗ ██║███████║██║777██║███████║██╔████╔██║██║    █████╗  ██║   ██║██║<bug>█████╔╝ "
    } else if k == 3 {
        " ██║███╗██║██╔══██║██║   ██║██╔══██║██║╚██╔╝██║██║    ██╔══╝  ██║   ██║██║     ██╔═██╗ "
    } else if k == 4 {
        " ╚███╔███╔╝██║  ██║╚██████╔╝██║  ██║██║ ╚═╝ ██║██║    ██║     ╚██████╔╝╚██████╗██║  ██╗"
    } else {
        "  ╚══╝╚══╝ ╚═╝  ╚═╝ ╚═════╝ ╚═╝  ╚═╝╚═╝     ╚═╝╚═╝    ╚═╝ who! ╚═════╝  ╚═════╝╚═╝  ╚═╝"
    }
}

/// Each row preceded by a line break.
pub open spec fn rows_text(rows: Seq<Seq<char>>) -> Seq<char>
    decreases rows.len(),
{
    if rows.len() == 0 {
        seq![]
    } else {
        rows_text(rows.drop_last()) + "\n"@ + rows.last()
    }
}

/// The greeting line under the art, with the version and the (styled) authors.
pub open spec fn greeting(version: Seq<char>, authors: Seq<char>) -> Seq<char> {
    "       Hi whoamifuck          v"@ + version + "                by  - "@ + authors
}

/// The whole banner: the styled art rows and greeting, then the styled
/// information box.
pub open spec fn framed(rows: Seq<Seq<char>>, version: Seq<char>, authors: Seq<char>, info: Seq<char>) -> Seq<char> {
    "\n"@ + (rows_text(rows) + "\n"@ + greeting(version, authors)) + "\n"@ + info
}

/// `b` is the banner for `version` and `authors` around the information box
/// `info`: the art rows in bright red, the authors in bright blue and the
/// box in bold yellow, each as the terminal styling library prints it.
pub open spec fn is_banner(version: Seq<char>, authors: Seq<char>, info: Seq<char>, b: Seq<char>) -> bool {
    exists|rows: Seq<Seq<char>>, a: Seq<char>, i: Seq<char>|
        {
            &&& rows.len() == 6
            &&& forall|k: int| 0 <= k < 6 ==> painted(art_row(k), "91"@, #[trigger] rows[k])
            &&& painted(authors, "94"@, a)
            &&& painted(info, "1;33"@, i)
            &&& b == framed(rows, version, a, i)
        }
}

/// The information box of the help banner.
pub open spec fn help_info() -> Seq<char> {
    copies('_', BANNER_WIDTH as nat) + "\n"@
        + ": "@ + pad_right("代码仓库地址: https://github.com/zhuima/whoamifuck"@, 50) + "\n"@
        + ": "@ + pad_right("小报童甄选专栏: https://xiaobaot.best"@, 50) + "\n"@
        + ": "@ + pad_right("A Rust-based system security analysis and assessment"@, 50) + "\n"@
        + copies('-', BANNER_WIDTH as nat)
}

/// The information box of the command-line banner.
pub open spec fn cli_info() -> Seq<char> {
    "________________________________________________________"@ + "\n"@
        + ": https://github.com/zhuima/whoamifuck                  :"@ + "\n"@
        + ": A Rust-based system security analysis and assessment  :"@ + "\n"@
        + " ------------------------------------------------------"@
}

/// Styles the art, the greeting and `info`, and frames them.
fn compose(version: &str, authors: &str, info: &str) -> (b: String)
    ensures
        is_banner(version@, authors@, info@, b@),
{
    let mut body = String::new();
    let ghost mut rows: Seq<Seq<char>> = Seq::empty();
    let mut k: usize = 0;
    while k < 6
        invariant
            k <= 6,
            rows.len() == k,
            forall|j: int| 0 <= j < k ==> painted(art_row(j), "91"@, #[trigger] rows[j]),
            body@ == rows_text(rows),
        decreases 6 - k,
    {
        let row = bright_red(art_row_text(k));
        body.append("\n");
        body.append(row.as_str());
        proof {
            let old_rows = rows;
            rows = rows.push(row@);
            assert(rows.drop_last() == old_rows);
        }
        k = k + 1;
    }
    let a = bright_blue(authors);
    let i = yellow_bold(info);
    let mut b = String::new();
    b.append("\n");
    b.append(body.as_str());
    b.append("\n");
    b.append("       Hi whoamifuck          v");
    b.append(version);
    b.append("                by  - ");
    b.append(a.as_str());
    b.append("\n");
    b.append(i.as_str());
    assert(b@ == framed(rows, version@, a@, i@));
    b
}

/// The information box of the help banner, laid out.
fn help_info_text() -> (s: String)
    ensures
        s@ == help_info(),
{
    let mut s = repeat_char('_', BANNER_WIDTH);
    s.append("\n");
    s.append(": ");
    s.append(pad_right_str("代码仓库地址: https://github.com/zhuima/whoamifuck", 50).as_str());
    s.append("\n");
    s.append(": ");
    s.append(pad_right_str("小报童甄选专栏: https://xiaobaot.best", 50).as_str());
    s.append("\n");
    s.append(": ");
    s.append(pad_right_str("A Rust-based system security analysis and assessment", 50).as_str());
    s.append("\n");
    s.append(repeat_char('-', BANNER_WIDTH).as_str());
    s
}

/// The banner shown above the help text: the title art, a greeting with
/// `version` and `authors`, and a box with the project's addresses.
pub fn get_banner(version: &str, authors: &str) -> (b: String)
    ensures
        is_banner(version@, authors@, help_info(), b@),
{
    let info = help_info_text();
    compose(version, authors, info.as_str())
}

/// The banner of the command-line parser: the same art and greeting over a
/// shorter box.
pub fn cli_banner(version: &str, authors: &str) -> (b: String)
    ensures
        is_banner(version@, authors@, cli_info(), b@),
{
    let mut info = String::new();
    info.append("________________________________________________________");
    info.append("\n");
    info.append(": https://github.com/zhuima/whoamifuck                  :");
    info.append("\n");
    info.append(": A Rust-based system security analysis and assessment  :");
    info.append("\n");
    info.append(" ------------------------------------------------------");
    compose(version, authors, info.as_str())
}

} // verus!

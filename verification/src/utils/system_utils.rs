use vstd::prelude::*;
use crate::text::{
    copies, law_filter_membership, lines, lines_of, owned, repeat_char, starts_with, str_starts_with, trim, trim_ws,
};

verus! {

/// The heading printed before each section of a report: a blank line, a
/// rule of 50 `=`, the title, and another rule.
pub open spec fn section_text(title: Seq<char>) -> Seq<char> {
    "\n"@ + copies('=', 50) + "\n"@ + title + "\n"@ + copies('=', 50) + "\n"@
}

/// A line of `resolv.conf` naming a name server.
pub open spec fn is_nameserver_line(line: Seq<char>) -> bool {
    starts_with(line, "nameserver"@)
}

/// The name-server lines are exactly the lines of the configuration that
/// begin with `nameserver`.
pub proof fn law_nameserver_lines_are_those_named(resolv_conf: Seq<char>, l: Seq<char>)
    ensures
        lines(resolv_conf).filter(|y: Seq<char>| is_nameserver_line(y)).contains(l) <==> (lines(
            resolv_conf,
        ).contains(l) && starts_with(l, "nameserver"@)),
{
    law_filter_membership(lines(resolv_conf), |y: Seq<char>| is_nameserver_line(y), l);
}

/// The heading of a report section titled `title`.
pub fn section_header(title: &str) -> (r: String)
    ensures
        r@ == section_text(title@),
{
    let mut r = owned("\n");
    r.append(repeat_char('=', 50).as_str());
    r.append("\n");
    r.append(title);
    r.append("\n");
    r.append(repeat_char('=', 50).as_str());
    r.append("\n");
    r
}

/// A labelled value taken from a command's output: `<label>: ` and the
/// output without surrounding white space.
pub fn labelled_output(label: &str, output: &str) -> (r: String)
    ensures
        r@ == label@ + ": "@ + trim_ws(output@),
{
    let mut r = owned(label);
    r.append(": ");
    r.append(trim(output).as_str());
    r
}

/// The arguments of `ip` that show the network addresses: of the device
/// `device` when one is given, of every device otherwise.
pub fn ip_addr_args(device: Option<&str>) -> (r: Vec<String>)
    ensures
        device matches Some(d) ==> r.deep_view() == seq!["addr"@, "show"@, d@],
        device is None ==> r.deep_view() == seq!["addr"@],
{
    match device {
        Some(d) => {
            let r = vec![owned("addr"), owned("show"), owned(d)];
            assert(r.deep_view() == seq!["addr"@, "show"@, d@]);
            r
        },
        None => {
            let r = vec![owned("addr")];
            assert(r.deep_view() == seq!["addr"@]);
            r
        },
    }
}

/// The arguments of `ip` that show the default route.
pub fn default_route_args() -> (r: Vec<String>)
    ensures
        r.deep_view() == seq!["route"@, "show"@, "default"@],
{
    let r = vec![owned("route"), owned("show"), owned("default")];
    assert(r.deep_view() == seq!["route"@, "show"@, "default"@]);
    r
}

/// The name-server lines of a resolver configuration, in order.
pub fn nameserver_lines(resolv_conf: &str) -> (r: Vec<String>)
    ensures
        r.deep_view() == lines(resolv_conf@).filter(|l: Seq<char>| is_nameserver_line(l)),
        forall|l: Seq<char>|
            #[trigger] r.deep_view().contains(l) <==> (lines(resolv_conf@).contains(l) && starts_with(
                l,
                "nameserver"@,
            )),
{
    proof {
        let kept = lines(resolv_conf@).filter(|y: Seq<char>| is_nameserver_line(y));
        assert forall|l: Seq<char>|
            #[trigger] kept.contains(l) <==> (lines(resolv_conf@).contains(l) && starts_with(
                l,
                "nameserver"@,
            )) by {
            law_nameserver_lines_are_those_named(resolv_conf@, l);
        }
    }
    let ls = lines_of(resolv_conf);
    let ghost all = ls.deep_view();
    let ghost pred = |l: Seq<char>| is_nameserver_line(l);
    let mut r: Vec<String> = Vec::new();
    let mut i: usize = 0;
    while i < ls.len()
        invariant
            i <= ls@.len(),
            all == ls.deep_view(),
            all == lines(resolv_conf@),
            pred == (|l: Seq<char>| is_nameserver_line(l)),
            r.deep_view() == all.take(i as int).filter(pred),
        decreases ls@.len() - i,
    {
        assert(all[i as int] == ls@[i as int]@);
        if str_starts_with(ls[i].as_str(), "nameserver") {
            let ghost before = r.deep_view();
            r.push(ls[i].clone());
            assert(r.deep_view() == before.push(all[i as int]));
        }
        proof {
            assert(all.take(i + 1).drop_last() == all.take(i as int));
            assert(all.take(i + 1).last() == all[i as int]);
            reveal_with_fuel(Seq::filter, 1);
            assert(all.take(i + 1).filter(pred) == if pred(all[i as int]) {
                all.take(i as int).filter(pred).push(all[i as int])
            } else {
                all.take(i as int).filter(pred)
            });
        }
        i = i + 1;
    }
    assert(all.take(ls@.len() as int) == all);
    r
}

} // verus!

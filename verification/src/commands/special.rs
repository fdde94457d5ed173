use vstd::prelude::*;
use crate::text::{
    chosen, contains, law_filter_map_keeps, ends_with, lemma_chosen_contains, lemma_concat_contains, law_join_contains_parts, law_trim_end_leaves_no_suffix, lemma_contains_grow, lemma_pad_right_contains, starts_with, copies, decimal, decimal_string, join, join_strings, lines, lines_of, owned, pad_right,
    pad_right_str, repeat_char, trim_end, trim_end_matches, words, words_of,
};

verus! {

/// The special command: processes and services, open local ports, and the
/// system's status.
#[derive(Debug, Clone)]
pub struct Special {
    /// List the processes and the running services.
    pub proc_serv: bool,
    /// Probe the local TCP ports.
    pub port: bool,
    /// Show memory, CPU, disk and system information.
    pub os_status: bool,
}

/// One step of the special command, in the order it performs them.
#[derive(Debug, PartialEq, Eq, Structural)]
pub enum SpecialTask {
    /// List the processes and the running services.
    ProcessesAndServices,
    /// Probe the local TCP ports.
    PortScan,
    /// Show the system's status.
    SystemStatus,
}

/// The steps selected by the three switches, in order.
pub open spec fn special_plan(proc_serv: bool, port: bool, os_status: bool) -> Seq<SpecialTask> {
    (if proc_serv { seq![SpecialTask::ProcessesAndServices] } else { seq![] })
        + (if port { seq![SpecialTask::PortScan] } else { seq![] })
        + (if os_status { seq![SpecialTask::SystemStatus] } else { seq![] })
}

/// The table row of a line of `systemctl list-units` output: a line of at
/// least four words gives the unit name without its `.service` suffixes and
/// the description (the words from the fourth on), each left-aligned in 40
/// columns.
pub open spec fn service_row(line: Seq<char>) -> Option<Seq<char>> {
    let w = words(line);
    if w.len() >= 4 {
        Some(
            pad_right(trim_end(w[0], ".service"@), 40) + " "@ + pad_right(join(w.skip(3), " "@), 40),
        )
    } else {
        None
    }
}

/// Each step is planned exactly when its own switch is on, whatever the
/// other switches say, and at most once; the process and service listing comes first and the
/// status report last.
pub proof fn law_special_plan_follows_switches(s0: bool, s1: bool, s2: bool)
    ensures
        special_plan(s0, s1, s2).contains(SpecialTask::ProcessesAndServices) <==> s0,
        special_plan(s0, s1, s2).contains(SpecialTask::PortScan) <==> s1,
        special_plan(s0, s1, s2).contains(SpecialTask::SystemStatus) <==> s2,
        special_plan(s0, s1, s2).len() == (if s0 { 1int } else { 0 }) + (if s1 { 1int } else { 0 }) + (
        if s2 {
            1int
        } else {
            0
        }),
        s0 ==> special_plan(s0, s1, s2)[0] == SpecialTask::ProcessesAndServices,
        s2 ==> special_plan(s0, s1, s2).last() == SpecialTask::SystemStatus,
{
    let a = chosen(s0, SpecialTask::ProcessesAndServices);
    let b = chosen(s1, SpecialTask::PortScan);
    let c = chosen(s2, SpecialTask::SystemStatus);
    assert(special_plan(s0, s1, s2) == a + b + c);
    lemma_chosen_contains(s0, SpecialTask::ProcessesAndServices, SpecialTask::ProcessesAndServices);
    lemma_chosen_contains(s1, SpecialTask::PortScan, SpecialTask::ProcessesAndServices);
    lemma_chosen_contains(s2, SpecialTask::SystemStatus, SpecialTask::ProcessesAndServices);
    lemma_chosen_contains(s0, SpecialTask::ProcessesAndServices, SpecialTask::PortScan);
    lemma_chosen_contains(s1, SpecialTask::PortScan, SpecialTask::PortScan);
    lemma_chosen_contains(s2, SpecialTask::SystemStatus, SpecialTask::PortScan);
    lemma_chosen_contains(s0, SpecialTask::ProcessesAndServices, SpecialTask::SystemStatus);
    lemma_chosen_contains(s1, SpecialTask::PortScan, SpecialTask::SystemStatus);
    lemma_chosen_contains(s2, SpecialTask::SystemStatus, SpecialTask::SystemStatus);
    lemma_concat_contains(a, b, SpecialTask::ProcessesAndServices);
    lemma_concat_contains(a, b, SpecialTask::PortScan);
    lemma_concat_contains(a, b, SpecialTask::SystemStatus);
    lemma_concat_contains(a + b, c, SpecialTask::ProcessesAndServices);
    lemma_concat_contains(a + b, c, SpecialTask::PortScan);
    lemma_concat_contains(a + b, c, SpecialTask::SystemStatus);
    if s0 {
        assert((a + b + c)[0] == a[0]);
    }
    if s2 {
        assert((a + b + c).last() == c[0]);
    }
}

/// A service row keeps the whole description: a line of at least four words
/// gives a row that starts with the unit name (its `.service` suffixes
/// removed) and holds every word of the line from the fourth on, however
/// many there are; a shorter line gives no row.
pub proof fn law_service_row_keeps_every_description_word(line: Seq<char>)
    ensures
        service_row(line) is Some <==> words(line).len() >= 4,
        service_row(line) matches Some(row) ==> starts_with(
            row,
            trim_end(words(line)[0], ".service"@),
        ),
        service_row(line) matches Some(row) ==> forall|k: int|
            3 <= k < words(line).len() ==> contains(row, #[trigger] words(line)[k]),
{
    let w = words(line);
    if w.len() >= 4 {
        let name = trim_end(w[0], ".service"@);
        let d = join(w.skip(3), " "@);
        let pre = pad_right(name, 40) + " "@;
        let post = if d.len() < 40 {
            copies(' ', (40 - d.len()) as nat)
        } else {
            Seq::<char>::empty()
        };
        let row = pre + pad_right(d, 40);
        assert(row == service_row(line)->Some_0);
        assert(row =~= pre + d + post);
        lemma_pad_right_contains(name, 40);
        assert(row.take(name.len() as int) =~= pad_right(name, 40).take(name.len() as int));
        assert forall|k: int| 3 <= k < w.len() implies contains(row, #[trigger] w[k]) by {
            law_join_contains_parts(w.skip(3), " "@, k - 3);
            assert(w.skip(3)[k - 3] == w[k]);
            lemma_contains_grow(pre, d, post, w[k]);
        }
    }
}

/// Every line of the service listing with at least four words has its row
/// in the table, and every row of the table below the heading and the rule
/// is the row of such a line.
pub proof fn law_service_listing_rows(output: Seq<char>, l: Seq<char>, x: Seq<char>)
    ensures
        lines(output).contains(l) && words(l).len() >= 4 ==> lines(output).filter_map(
            |y: Seq<char>| service_row(y),
        ).contains(service_row(l)->Some_0),
        lines(output).filter_map(|y: Seq<char>| service_row(y)).contains(x) ==> exists|m: Seq<char>|
            #[trigger] lines(output).contains(m) && words(m).len() >= 4 && service_row(m) == Some(x),
{
    let f = |y: Seq<char>| service_row(y);
    if lines(output).contains(l) && words(l).len() >= 4 {
        law_filter_map_keeps(lines(output), f, l);
    }
    if lines(output).filter_map(f).contains(x) {
        lines(output).lemma_filter_map_contains(f, x);
    }
}

/// The heading of the service table.
pub open spec fn service_heading() -> Seq<char> {
    pad_right("Service Name"@, 40) + " "@ + pad_right("Description"@, 40)
}

/// The human-readable size of a byte count with decimal (power of 1000)
/// units, as the size-formatting library prints it.
pub uninterp spec fn decimal_size_text(bytes: int) -> Seq<char>;

/// The size of `bytes` in the most fitting decimal unit.
/// Trusted: `byte_unit::Byte::from_u64` followed by `get_appropriate_unit`
/// with `UnitType::Decimal`, printed through `Display`, depends on `bytes`
/// alone; the text is named by `decimal_size_text`.
#[verifier::external_body]
fn decimal_size(bytes: u64) -> (r: String)
    ensures
        r@ == decimal_size_text(bytes as int),
{
    byte_unit::Byte::from_u64(bytes).get_appropriate_unit(byte_unit::UnitType::Decimal).to_string()
}

/// `true` or `false`, as `bool` prints.
pub open spec fn bool_text(b: bool) -> Seq<char> {
    if b {
        "true"@
    } else {
        "false"@
    }
}

/// The unit name shown in a row of the service table never ends with
/// `.service`: every trailing repetition of the suffix is removed.
pub proof fn law_service_name_without_suffix(line: Seq<char>)
    requires
        words(line).len() >= 4,
    ensures
        !ends_with(trim_end(words(line)[0], ".service"@), ".service"@),
{
    reveal_strlit(".service");
    law_trim_end_leaves_no_suffix(words(line)[0], ".service"@);
}

/// The text `Debug` prints for a string: the string quoted, with its special
/// characters escaped.
pub uninterp spec fn debug_text(s: Seq<char>) -> Seq<char>;

/// `s` as `Debug` prints it.
/// Trusted: `Debug` of a `str` (`{:?}`) depends on the string alone; the
/// text is named by `debug_text`.
#[verifier::external_body]
fn debug_quoted(s: &str) -> (r: String)
    ensures
        r@ == debug_text(s@),
{
    format!("{:?}", s)
}

/// What `{:?}` prints for an optional string: `Some(` and the quoted string
/// and `)`, or `None`.
pub open spec fn option_debug(o: Option<String>) -> Seq<char> {
    match o {
        Some(s) => "Some("@ + debug_text(s@) + ")"@,
        None => "None"@,
    }
}

impl Special {
    /// The steps of the command: the process and service listing, the port
    /// probe and the status report, each when its switch is on.
    pub fn run(&self) -> (tasks: Vec<SpecialTask>)
        ensures
            tasks@ == special_plan(self.proc_serv, self.port, self.os_status),
            tasks@.contains(SpecialTask::ProcessesAndServices) <==> self.proc_serv,
            tasks@.contains(SpecialTask::PortScan) <==> self.port,
            tasks@.contains(SpecialTask::SystemStatus) <==> self.os_status,
    {
        proof {
            law_special_plan_follows_switches(self.proc_serv, self.port, self.os_status);
        }
        let mut tasks: Vec<SpecialTask> = Vec::new();
        if self.proc_serv {
            tasks.push(SpecialTask::ProcessesAndServices);
        }
        if self.port {
            tasks.push(SpecialTask::PortScan);
        }
        if self.os_status {
            tasks.push(SpecialTask::SystemStatus);
        }
        tasks
    }

    /// The arguments of `systemctl` that list the running services.
    pub fn systemctl_args() -> (r: Vec<String>)
        ensures
            r.deep_view() == seq![
                "list-units"@,
                "--type=service"@,
                "--state=running"@,
                "--no-pager"@,
                "--no-legend"@,
            ],
    {
        let r = vec![
            owned("list-units"),
            owned("--type=service"),
            owned("--state=running"),
            owned("--no-pager"),
            owned("--no-legend"),
        ];
        assert(r.deep_view() == seq![
            "list-units"@,
            "--type=service"@,
            "--state=running"@,
            "--no-pager"@,
            "--no-legend"@,
        ]);
        r
    }

    /// The table row for one line of the service listing, if the line has
    /// at least four words.
    pub fn service_row(line: &str) -> (r: Option<String>)
        ensures
            r matches Some(x) ==> service_row(line@) == Some(x@),
            r is None ==> service_row(line@) is None,
            r is Some <==> words(line@).len() >= 4,
            r matches Some(x) ==> starts_with(x@, trim_end(words(line@)[0], ".service"@)),
            r matches Some(x) ==> forall|k: int|
                3 <= k < words(line@).len() ==> contains(x@, #[trigger] words(line@)[k]),
    {
        let parts = words_of(line);
        let ghost w = parts.deep_view();
        if parts.len() < 4 {
            return None;
        }
        let name = trim_end_matches(parts[0].as_str(), ".service");
        let mut rest: Vec<String> = Vec::new();
        let mut i: usize = 3;
        while i < parts.len()
            invariant
                3 <= i <= parts@.len(),
                w == parts.deep_view(),
                rest.deep_view() == w.subrange(3, i as int),
            decreases parts@.len() - i,
        {
            let ghost before = rest.deep_view();
            rest.push(parts[i].clone());
            assert(rest.deep_view() == before.push(w[i as int]));
            assert(w.subrange(3, i + 1) == w.subrange(3, i as int).push(w[i as int]));
            i = i + 1;
        }
        assert(w.subrange(3, parts@.len() as int) == w.skip(3));
        let description = join_strings(&rest, " ");
        let mut row = pad_right_str(name.as_str(), 40);
        row.append(" ");
        row.append(pad_right_str(description.as_str(), 40).as_str());
        proof {
            law_service_row_keeps_every_description_word(line@);
        }
        Some(row)
    }

    /// The service table for the output of `systemctl`: the heading, a rule
    /// of 80 `=`, and the row of each line that has one, in order.
    pub fn service_listing(output: &str) -> (r: Vec<String>)
        ensures
            r.deep_view() == seq![service_heading(), copies('=', 80)] + lines(output@).filter_map(
                |l: Seq<char>| service_row(l),
            ),
            forall|l: Seq<char>|
                #[trigger] lines(output@).contains(l) && words(l).len() >= 4 ==> r.deep_view().contains(
                    service_row(l)->Some_0,
                ),
    {
        proof {
            let rows = lines(output@).filter_map(|y: Seq<char>| service_row(y));
            assert forall|l: Seq<char>|
                #[trigger] lines(output@).contains(l) && words(l).len() >= 4 implies rows.contains(
                    service_row(l)->Some_0,
                ) by {
                law_service_listing_rows(output@, l, l);
            }
        }
        let ls = lines_of(output);
        let ghost all = ls.deep_view();
        let mut heading = pad_right_str("Service Name", 40);
        heading.append(" ");
        heading.append(pad_right_str("Description", 40).as_str());
        let mut r: Vec<String> = Vec::new();
        r.push(heading);
        r.push(repeat_char('=', 80));
        let ghost head = seq![service_heading(), copies('=', 80)];
        assert(r.deep_view() == head);
        let mut i: usize = 0;
        while i < ls.len()
            invariant
                i <= ls@.len(),
                all == ls.deep_view(),
                all == lines(output@),
                head == seq![service_heading(), copies('=', 80)],
                r.deep_view() == head + all.take(i as int).filter_map(
                    |l: Seq<char>| service_row(l),
                ),
            decreases ls@.len() - i,
        {
            assert(all.take(i + 1).drop_last() == all.take(i as int));
            assert(all[i as int] == ls@[i as int]@);
            match Self::service_row(ls[i].as_str()) {
                Some(row) => {
                    let ghost before = r.deep_view();
                    r.push(row);
                    assert(r.deep_view() == before.push(row@));
                },
                None => {},
            }
            i = i + 1;
        }
        assert(all.take(ls@.len() as int) == all);
        proof {
            let rows = lines(output@).filter_map(|y: Seq<char>| service_row(y));
            assert forall|l: Seq<char>|
                #[trigger] lines(output@).contains(l) && words(l).len() >= 4 implies r.deep_view().contains(
                    service_row(l)->Some_0,
                ) by {
                let j = choose|j: int| 0 <= j < rows.len() && rows[j] == service_row(l)->Some_0;
                assert(r.deep_view()[j + 2] == rows[j]);
            }
        }
        r
    }

    /// The local ports probed, in order: 1 to 65534.
    pub fn probe_ports() -> (r: Vec<u16>)
        ensures
            r@.len() == 65534,
            forall|k: int| 0 <= k < r@.len() ==> r@[k] == k + 1,
    {
        let mut r: Vec<u16> = Vec::new();
        let mut port: u16 = 1;
        while port < 65535
            invariant
                1 <= port <= 65535,
                r@.len() == port - 1,
                forall|k: int| 0 <= k < r@.len() ==> r@[k] == k + 1,
            decreases 65535 - port,
        {
            r.push(port);
            port = port + 1;
        }
        r
    }

    /// The line printed for an open port.
    pub fn open_port_line(port: u16) -> (r: String)
        ensures
            r@ == "Port "@ + decimal(port as nat) + " is open"@,
    {
        let mut r = owned("Port ");
        r.append(decimal_string(port as u64).as_str());
        r.append(" is open");
        r
    }

    /// The memory section of the status report.
    pub fn memory_lines(total: u64, used: u64, total_swap: u64, used_swap: u64) -> (r: Vec<String>)
        ensures
            r.deep_view() == seq![
                "Memory Information:"@,
                "  Total memory: "@ + decimal_size_text(total as int),
                "  Used memory: "@ + decimal_size_text(used as int),
                "  Total swap: "@ + decimal_size_text(total_swap as int),
                "  Used swap: "@ + decimal_size_text(used_swap as int),
            ],
    {
        let mut a = owned("  Total memory: ");
        a.append(decimal_size(total).as_str());
        let mut b = owned("  Used memory: ");
        b.append(decimal_size(used).as_str());
        let mut c = owned("  Total swap: ");
        c.append(decimal_size(total_swap).as_str());
        let mut d = owned("  Used swap: ");
        d.append(decimal_size(used_swap).as_str());
        let r = vec![owned("Memory Information:"), a, b, c, d];
        assert(r.deep_view() == seq![
            "Memory Information:"@,
            "  Total memory: "@ + decimal_size_text(total as int),
            "  Used memory: "@ + decimal_size_text(used as int),
            "  Total swap: "@ + decimal_size_text(total_swap as int),
            "  Used swap: "@ + decimal_size_text(used_swap as int),
        ]);
        r
    }

    /// The lines of one disk in the status report.
    pub fn disk_lines(name: &str, total: u64, available: u64, removable: bool) -> (r: Vec<String>)
        ensures
            r.deep_view() == seq![
                "  "@ + name@ + ": "@,
                "    Total: "@ + decimal_size_text(total as int),
                "    Available: "@ + decimal_size_text(available as int),
                "    Is removable: "@ + bool_text(removable),
            ],
    {
        let mut a = owned("  ");
        a.append(name);
        a.append(": ");
        let mut b = owned("    Total: ");
        b.append(decimal_size(total).as_str());
        let mut c = owned("    Available: ");
        c.append(decimal_size(available).as_str());
        let mut d = owned("    Is removable: ");
        if removable {
            d.append("true");
        } else {
            d.append("false");
        }
        let r = vec![a, b, c, d];
        assert(r.deep_view() == seq![
            "  "@ + name@ + ": "@,
            "    Total: "@ + decimal_size_text(total as int),
            "    Available: "@ + decimal_size_text(available as int),
            "    Is removable: "@ + bool_text(removable),
        ]);
        r
    }

    /// An optional string as `{:?}` prints it.
    fn option_text(o: &Option<String>) -> (r: String)
        ensures
            r@ == option_debug(*o),
    {
        match o {
            Some(x) => {
                let mut r = owned("Some(");
                r.append(debug_quoted(x.as_str()).as_str());
                r.append(")");
                r
            },
            None => owned("None"),
        }
    }

    /// The system section of the status report: the system's name, kernel
    /// version, OS version and host name, each as `{:?}` prints it.
    pub fn system_info_lines(
        name: Option<String>,
        kernel: Option<String>,
        os: Option<String>,
        host: Option<String>,
    ) -> (r: Vec<String>)
        ensures
            r.deep_view() == seq![
                "\nSystem Information:"@,
                "  System name: "@ + option_debug(name),
                "  System kernel version: "@ + option_debug(kernel),
                "  System OS version: "@ + option_debug(os),
                "  System host name: "@ + option_debug(host),
            ],
    {
        let mut a = owned("  System name: ");
        a.append(Self::option_text(&name).as_str());
        let mut b = owned("  System kernel version: ");
        b.append(Self::option_text(&kernel).as_str());
        let mut c = owned("  System OS version: ");
        c.append(Self::option_text(&os).as_str());
        let mut d = owned("  System host name: ");
        d.append(Self::option_text(&host).as_str());
        let r = vec![owned("\nSystem Information:"), a, b, c, d];
        assert(r.deep_view() == seq![
            "\nSystem Information:"@,
            "  System name: "@ + option_debug(name),
            "  System kernel version: "@ + option_debug(kernel),
            "  System OS version: "@ + option_debug(os),
            "  System host name: "@ + option_debug(host),
        ]);
        r
    }

    /// The line about the MAC address: the address found, that none was
    /// found, or the error met while looking.
    pub fn mac_address_line(lookup: Result<Option<String>, String>) -> (r: String)
        ensures
            lookup matches Ok(Some(a)) ==> r@ == "  MAC Address: "@ + a@,
            lookup matches Ok(None) ==> r@ == "  MAC Address: "@ + "No MAC address found"@,
            lookup matches Err(e) ==> r@ == "  MAC Address: "@ + "Error getting MAC address: "@ + e@,
    {
        let mut r = owned("  MAC Address: ");
        match lookup {
            Ok(Some(a)) => r.append(a.as_str()),
            Ok(None) => r.append("No MAC address found"),
            Err(e) => {
                r.append("Error getting MAC address: ");
                r.append(e.as_str());
            },
        }
        r
    }
}

} // verus!

//! Choosing which PipeWire ports to link between QEMU and a device pair, from
//! the port listings that `pw-link -o` and `pw-link -i` print.
use vstd::prelude::*;
use vstd::string::*;

use crate::text::{
    spec_contains, spec_lines, split_lines, str_contains, to_lowercase, trim, trimmed,
    unicode_lowercase, views,
};

verus! {

/// Which listed ports a filter keeps.
#[derive(Debug, Clone, Copy, PartialEq, Eq, Structural)]
pub enum PortFilter {
    /// QEMU output ports: the line matches the pattern, is no monitor port and
    /// is none of ours.
    QemuOutput,
    /// QEMU input ports: the line matches the pattern and is none of ours.
    QemuInput,
    /// Ports of our own node: the line names it.
    Ours,
}

/// Whether a listed port line passes a filter. `needle` is the lowercased
/// QEMU pattern for the QEMU filters and our node's name for `Ours`.
pub open spec fn port_matches(filter: PortFilter, needle: Seq<char>, line: Seq<char>) -> bool {
    match filter {
        PortFilter::QemuOutput => spec_contains(unicode_lowercase(line), needle) && !spec_contains(
            line,
            "monitor_"@,
        ) && !spec_contains(line, "audiomock-"@),
        PortFilter::QemuInput => spec_contains(unicode_lowercase(line), needle) && !spec_contains(
            line,
            "audiomock-"@,
        ),
        PortFilter::Ours => spec_contains(line, needle),
    }
}

/// The lines that pass a filter, in order.
pub open spec fn filter_ports(lines: Seq<Seq<char>>, filter: PortFilter, needle: Seq<char>) -> Seq<Seq<char>>
    decreases lines.len(),
{
    if lines.len() == 0 {
        Seq::empty()
    } else {
        let prev = filter_ports(lines.drop_last(), filter, needle);
        if port_matches(filter, needle, lines.last()) {
            prev.push(lines.last())
        } else {
            prev
        }
    }
}

fn line_matches(filter: PortFilter, needle: &str, line: &str) -> (r: bool)
    ensures
        r == port_matches(filter, needle@, line@),
{
    match filter {
        PortFilter::QemuOutput => {
            let lower = to_lowercase(line);
            str_contains(lower.as_str(), needle) && !str_contains(line, "monitor_")
                && !str_contains(line, "audiomock-")
        },
        PortFilter::QemuInput => {
            let lower = to_lowercase(line);
            str_contains(lower.as_str(), needle) && !str_contains(line, "audiomock-")
        },
        PortFilter::Ours => str_contains(line, needle),
    }
}

/// The listed ports that pass a filter, in listing order.
pub fn select_ports(lines: &Vec<String>, filter: PortFilter, needle: &str) -> (r: Vec<String>)
    ensures
        views(r@) == filter_ports(views(lines@), filter, needle@),
{
    let n = lines.len();
    let mut out: Vec<String> = Vec::new();
    let mut i: usize = 0;
    while i < n
        invariant
            n == lines@.len(),
            i <= n,
            views(out@) == filter_ports(views(lines@).take(i as int), filter, needle@),
        decreases n - i,
    {
        let ghost prev = out@;
        let line = lines[i].as_str();
        if line_matches(filter, needle, line) {
            out.push(lines[i].clone());
            proof {
                assert(views(out@) =~= views(prev).push(lines@[i as int]@));
            }
        }
        proof {
            let t1 = views(lines@).take(i + 1);
            assert(t1.drop_last() =~= views(lines@).take(i as int));
            assert(t1.last() == lines@[i as int]@);
        }
        i = i + 1;
    }
    assert(views(lines@).take(n as int) =~= views(lines@));
    out
}

/// One link to make: from an output port to an input port.
#[derive(Debug, Clone, PartialEq, Eq)]
pub struct PortLink {
    pub from: String,
    pub to: String,
}

/// Ports paired in order, each trimmed, as many pairs as the shorter list has.
pub open spec fn zip_trimmed(a: Seq<Seq<char>>, b: Seq<Seq<char>>) -> Seq<(Seq<char>, Seq<char>)> {
    let n = if a.len() <= b.len() { a.len() } else { b.len() };
    Seq::new(n, |k: int| (trimmed(a[k]), trimmed(b[k])))
}

/// The endpoints of each link, as character sequences.
pub open spec fn link_views(v: Seq<PortLink>) -> Seq<(Seq<char>, Seq<char>)> {
    v.map_values(|l: PortLink| (l.from@, l.to@))
}

fn zip_links(outs: &Vec<String>, ins: &Vec<String>, links: &mut Vec<PortLink>)
    ensures
        link_views(final(links)@) == link_views(old(links)@) + zip_trimmed(views(outs@), views(ins@)),
{
    let n = if outs.len() <= ins.len() { outs.len() } else { ins.len() };
    let ghost start = link_views(links@);
    let mut k: usize = 0;
    while k < n
        invariant
            n <= outs@.len(),
            n <= ins@.len(),
            n == if outs@.len() <= ins@.len() { outs@.len() } else { ins@.len() },
            k <= n,
            link_views(links@) == start + zip_trimmed(views(outs@), views(ins@)).take(k as int),
        decreases n - k,
    {
        let ghost prev = links@;
        let from = trim(outs[k].as_str());
        let to = trim(ins[k].as_str());
        links.push(PortLink { from, to });
        proof {
            let z = zip_trimmed(views(outs@), views(ins@));
            assert(link_views(links@) =~= link_views(prev).push((from@, to@)));
            assert(z.take(k + 1) =~= z.take(k as int).push(z[k as int]));
        }
        k = k + 1;
    }
    assert(zip_trimmed(views(outs@), views(ins@)).take(n as int) =~= zip_trimmed(views(outs@), views(ins@)));
}

/// What linking a device pair to QEMU amounts to.
pub struct LinkPlan {
    /// The QEMU node pattern searched for, as given.
    pub pattern: String,
    /// Whether any QEMU port (input or output) matched.
    pub found_qemu_ports: bool,
    /// QEMU outputs to our sink inputs, then our source outputs to QEMU inputs.
    pub links: Vec<PortLink>,
}

/// Name of the PipeWire node of a device pair's sink.
pub open spec fn sink_node_name(device: Seq<char>) -> Seq<char> {
    "audiomock-sink-"@ + device
}

/// Name of the PipeWire node of a device pair's source.
pub open spec fn source_node_name(device: Seq<char>) -> Seq<char> {
    "audiomock-source-"@ + device
}

/// The links between QEMU's ports and the device pair's, given the two port
/// listings: QEMU output ports paired with our sink's input ports, then our
/// source's output ports paired with QEMU input ports.
pub open spec fn spec_links(outputs: Seq<char>, inputs: Seq<char>, device: Seq<char>, pattern: Seq<char>) -> Seq<(Seq<char>, Seq<char>)> {
    let pl = unicode_lowercase(pattern);
    let out_lines = spec_lines(outputs);
    let in_lines = spec_lines(inputs);
    zip_trimmed(
        filter_ports(out_lines, PortFilter::QemuOutput, pl),
        filter_ports(in_lines, PortFilter::Ours, sink_node_name(device)),
    ) + zip_trimmed(
        filter_ports(out_lines, PortFilter::Ours, source_node_name(device)),
        filter_ports(in_lines, PortFilter::QemuInput, pl),
    )
}

/// Whether any QEMU output or input port matches the pattern.
pub open spec fn spec_found_qemu(outputs: Seq<char>, inputs: Seq<char>, pattern: Seq<char>) -> bool {
    let pl = unicode_lowercase(pattern);
    filter_ports(spec_lines(outputs), PortFilter::QemuOutput, pl).len() > 0 || filter_ports(
        spec_lines(inputs),
        PortFilter::QemuInput,
        pl,
    ).len() > 0
}

/// The QEMU node pattern: the given one, else `"qemu"`.
pub open spec fn spec_pattern(qemu_node: Option<&str>) -> Seq<char> {
    match qemu_node {
        Some(p) => p@,
        None => "qemu"@,
    }
}

/// Plan the links for `device` from the `pw-link -o` and `pw-link -i`
/// listings; QEMU's nodes are found by `qemu_node` (default "qemu"),
/// compared without regard to case.
pub fn plan_links(output_ports: &str, input_ports: &str, device: &str, qemu_node: Option<&str>) -> (r: LinkPlan)
    ensures
        r.pattern@ == spec_pattern(qemu_node),
        r.found_qemu_ports == spec_found_qemu(output_ports@, input_ports@, spec_pattern(qemu_node)),
        link_views(r.links@) == spec_links(output_ports@, input_ports@, device@, spec_pattern(qemu_node)),
{
    let pattern = match qemu_node {
        Some(p) => String::from_str(p),
        None => String::from_str("qemu"),
    };
    let pattern_lower = to_lowercase(pattern.as_str());
    let out_lines = split_lines(output_ports);
    let in_lines = split_lines(input_ports);
    let qemu_outputs = select_ports(&out_lines, PortFilter::QemuOutput, pattern_lower.as_str());
    let qemu_inputs = select_ports(&in_lines, PortFilter::QemuInput, pattern_lower.as_str());
    let mut sink_name = String::from_str("audiomock-sink-");
    sink_name.append(device);
    let our_sink_inputs = select_ports(&in_lines, PortFilter::Ours, sink_name.as_str());
    let mut source_name = String::from_str("audiomock-source-");
    source_name.append(device);
    let our_source_outputs = select_ports(&out_lines, PortFilter::Ours, source_name.as_str());
    let found = qemu_outputs.len() > 0 || qemu_inputs.len() > 0;
    let mut links: Vec<PortLink> = Vec::new();
    zip_links(&qemu_outputs, &our_sink_inputs, &mut links);
    zip_links(&our_source_outputs, &qemu_inputs, &mut links);
    proof {
        assert(link_views(Seq::<PortLink>::empty()) =~= Seq::<(Seq<char>, Seq<char>)>::empty());
    }
    LinkPlan { pattern, found_qemu_ports: found, links }
}

/// QEMU port law: a listed port line that is none of ours is taken as a QEMU
/// input port exactly when its lowercased text contains the (lowercased)
/// pattern, so `QEMU:input_FL` is found by the pattern `qemu`; QEMU output
/// ports are found by the same case-insensitive test, monitor ports left out.
pub proof fn law_qemu_ports_ignore_case(needle: Seq<char>, line: Seq<char>)
    ensures
        !spec_contains(line, "audiomock-"@) ==> (port_matches(PortFilter::QemuInput, needle, line)
            <==> spec_contains(unicode_lowercase(line), needle)),
        spec_contains(line, "audiomock-"@) ==> !port_matches(PortFilter::QemuInput, needle, line),
        port_matches(PortFilter::QemuOutput, needle, line) <==> (port_matches(PortFilter::QemuInput, needle, line)
            && !spec_contains(line, "monitor_"@)),
        port_matches(PortFilter::Ours, needle, line) <==> spec_contains(line, needle),
{
}

/// Selection law: the ports a filter keeps are exactly the listed lines that
/// pass it, in listing order.
pub proof fn law_filter_ports_keeps_passing_lines(lines: Seq<Seq<char>>, filter: PortFilter, needle: Seq<char>)
    ensures
        filter_ports(lines, filter, needle) == lines.filter(|l: Seq<char>| port_matches(filter, needle, l)),
    decreases lines.len(),
{
    reveal_with_fuel(Seq::filter, 1);
    if lines.len() > 0 {
        law_filter_ports_keeps_passing_lines(lines.drop_last(), filter, needle);
    }
}

/// `x` is the trimmed text of a line of `lines` that passes `filter`.
pub open spec fn listed_port(lines: Seq<Seq<char>>, filter: PortFilter, needle: Seq<char>, x: Seq<char>) -> bool {
    exists|i: int| 0 <= i < lines.len() && #[trigger] port_matches(filter, needle, lines[i]) && x == trimmed(lines[i])
}

/// `x` is a line of `lines` that passes `filter`.
pub open spec fn passing_line(lines: Seq<Seq<char>>, filter: PortFilter, needle: Seq<char>, x: Seq<char>) -> bool {
    exists|i: int| 0 <= i < lines.len() && #[trigger] port_matches(filter, needle, lines[i]) && lines[i] == x
}

proof fn lemma_filter_ports_members(lines: Seq<Seq<char>>, filter: PortFilter, needle: Seq<char>)
    ensures
        forall|k: int| 0 <= k < filter_ports(lines, filter, needle).len() ==> passing_line(
            lines,
            filter,
            needle,
            #[trigger] filter_ports(lines, filter, needle)[k],
        ),
    decreases lines.len(),
{
    if lines.len() > 0 {
        let prev = lines.drop_last();
        lemma_filter_ports_members(prev, filter, needle);
        let fp = filter_ports(lines, filter, needle);
        let pf = filter_ports(prev, filter, needle);
        assert forall|k: int| 0 <= k < fp.len() implies passing_line(lines, filter, needle, #[trigger] fp[k]) by {
            if k < pf.len() {
                assert(fp[k] == pf[k]);
                assert(passing_line(prev, filter, needle, pf[k]));
                let i = choose|i: int| 0 <= i < prev.len() && #[trigger] port_matches(filter, needle, prev[i]) && prev[i] == pf[k];
                assert(lines[i] == prev[i]);
                assert(port_matches(filter, needle, lines[i]));
            } else {
                let i = lines.len() - 1;
                assert(lines[i] == lines.last());
                assert(port_matches(filter, needle, lines[i]));
            }
        }
    }
}

proof fn lemma_zip_from_listings(
    a_lines: Seq<Seq<char>>,
    a_filter: PortFilter,
    a_needle: Seq<char>,
    b_lines: Seq<Seq<char>>,
    b_filter: PortFilter,
    b_needle: Seq<char>,
)
    ensures
        ({
            let z = zip_trimmed(filter_ports(a_lines, a_filter, a_needle), filter_ports(b_lines, b_filter, b_needle));
            forall|k: int| 0 <= k < z.len() ==> listed_port(a_lines, a_filter, a_needle, #[trigger] z[k].0) && listed_port(
                b_lines,
                b_filter,
                b_needle,
                z[k].1,
            )
        }),
{
    let fa = filter_ports(a_lines, a_filter, a_needle);
    let fb = filter_ports(b_lines, b_filter, b_needle);
    let z = zip_trimmed(fa, fb);
    lemma_filter_ports_members(a_lines, a_filter, a_needle);
    lemma_filter_ports_members(b_lines, b_filter, b_needle);
    assert forall|k: int| 0 <= k < z.len() implies listed_port(a_lines, a_filter, a_needle, #[trigger] z[k].0) && listed_port(
        b_lines,
        b_filter,
        b_needle,
        z[k].1,
    ) by {
        assert(0 <= k < fa.len() && 0 <= k < fb.len());
        assert(passing_line(a_lines, a_filter, a_needle, fa[k]));
        assert(passing_line(b_lines, b_filter, b_needle, fb[k]));
        let i = choose|i: int| 0 <= i < a_lines.len() && #[trigger] port_matches(a_filter, a_needle, a_lines[i]) && a_lines[i] == fa[k];
        let j = choose|j: int| 0 <= j < b_lines.len() && #[trigger] port_matches(b_filter, b_needle, b_lines[j]) && b_lines[j] == fb[k];
        assert(port_matches(a_filter, a_needle, a_lines[i]));
        assert(port_matches(b_filter, b_needle, b_lines[j]));
        assert(z[k].0 == trimmed(a_lines[i]));
        assert(z[k].1 == trimmed(b_lines[j]));
    }
}

/// How many links join QEMU's output ports to our sink's input ports: as
/// many as the shorter of the two lists has.
pub open spec fn first_link_count(out_lines: Seq<Seq<char>>, in_lines: Seq<Seq<char>>, device: Seq<char>, pl: Seq<char>) -> nat {
    let qo = filter_ports(out_lines, PortFilter::QemuOutput, pl).len();
    let si = filter_ports(in_lines, PortFilter::Ours, sink_node_name(device)).len();
    if qo <= si { qo } else { si }
}

/// How many links join our source's output ports to QEMU's input ports.
pub open spec fn second_link_count(out_lines: Seq<Seq<char>>, in_lines: Seq<Seq<char>>, device: Seq<char>, pl: Seq<char>) -> nat {
    let so = filter_ports(out_lines, PortFilter::Ours, source_node_name(device)).len();
    let qi = filter_ports(in_lines, PortFilter::QemuInput, pl).len();
    if so <= qi { so } else { qi }
}

/// Link direction law: QEMU's output ports are linked into our sink's input
/// ports first, then our source's output ports into QEMU's input ports, as
/// many pairs as the shorter side of each has; every link goes from a port of
/// the output listing to a port of the input listing, each trimmed.
pub proof fn law_links_direction(outputs: Seq<char>, inputs: Seq<char>, device: Seq<char>, pattern: Seq<char>)
    ensures
        ({
            let links = spec_links(outputs, inputs, device, pattern);
            let out_lines = spec_lines(outputs);
            let in_lines = spec_lines(inputs);
            let pl = unicode_lowercase(pattern);
            let m1 = first_link_count(out_lines, in_lines, device, pl);
            let m2 = second_link_count(out_lines, in_lines, device, pl);
            let first = links.take(m1 as int);
            let second = links.skip(m1 as int);
            &&& links.len() == m1 + m2
            &&& first.len() == m1
            &&& second.len() == m2
            &&& forall|k: int| 0 <= k < m1 ==> listed_port(out_lines, PortFilter::QemuOutput, pl, #[trigger] first[k].0)
                && listed_port(in_lines, PortFilter::Ours, sink_node_name(device), first[k].1)
            &&& forall|k: int| 0 <= k < m2 ==> listed_port(out_lines, PortFilter::Ours, source_node_name(device), #[trigger] second[k].0)
                && listed_port(in_lines, PortFilter::QemuInput, pl, second[k].1)
        }),
{
    let pl = unicode_lowercase(pattern);
    let out_lines = spec_lines(outputs);
    let in_lines = spec_lines(inputs);
    let z1 = zip_trimmed(filter_ports(out_lines, PortFilter::QemuOutput, pl), filter_ports(in_lines, PortFilter::Ours, sink_node_name(device)));
    let z2 = zip_trimmed(filter_ports(out_lines, PortFilter::Ours, source_node_name(device)), filter_ports(in_lines, PortFilter::QemuInput, pl));
    lemma_zip_from_listings(out_lines, PortFilter::QemuOutput, pl, in_lines, PortFilter::Ours, sink_node_name(device));
    lemma_zip_from_listings(out_lines, PortFilter::Ours, source_node_name(device), in_lines, PortFilter::QemuInput, pl);
    let links = spec_links(outputs, inputs, device, pattern);
    assert(links == z1 + z2);
    let m1 = first_link_count(out_lines, in_lines, device, pl);
    assert(z1.len() == m1);
    assert(links.take(m1 as int) =~= z1);
    assert(links.skip(m1 as int) =~= z2);
}

} // verus!

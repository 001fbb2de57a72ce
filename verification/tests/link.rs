use audiomock::link::{plan_links, select_ports, PortFilter, PortLink};
use audiomock::text::{split_lines, str_contains, str_equals};

const OUTPUTS: &str = "QEMU:output_FL\nQEMU:output_FR\nQEMU:monitor_FL\naudiomock-source-default:output_FL\naudiomock-source-default:output_FR\n";
const INPUTS: &str = "audiomock-sink-default:input_FL\r\naudiomock-sink-default:input_FR\r\nqemu:input_MONO\n";

fn link(from: &str, to: &str) -> PortLink {
    PortLink { from: from.to_string(), to: to.to_string() }
}

#[test]
fn lines_like_std() {
    for text in ["", "a", "a\n", "a\nb", "a\r\nb\r\n", "\n\n", "x\r", "a\n\r\nb", " a \n"] {
        let expected: Vec<String> = text.lines().map(|l| l.to_string()).collect();
        assert_eq!(split_lines(text), expected, "text {text:?}");
    }
}

#[test]
fn substring_search() {
    assert!(str_contains("audiomock-sink-default:input_FL", "sink-default"));
    assert!(str_contains("abc", ""));
    assert!(!str_contains("ab", "abc"));
    assert!(!str_contains("monitor", "monitor_"));
    assert!(str_equals("qemu", "qemu"));
    assert!(!str_equals("qemu", "QEMU"));
}

#[test]
fn qemu_ports_exclude_monitor_and_ours() {
    let lines = split_lines(OUTPUTS);
    assert_eq!(
        select_ports(&lines, PortFilter::QemuOutput, "qemu"),
        vec!["QEMU:output_FL".to_string(), "QEMU:output_FR".to_string()]
    );
    assert_eq!(
        select_ports(&lines, PortFilter::Ours, "audiomock-source-default"),
        vec!["audiomock-source-default:output_FL".to_string(), "audiomock-source-default:output_FR".to_string()]
    );
}

#[test]
fn plan_pairs_ports_in_order() {
    let plan = plan_links(OUTPUTS, INPUTS, "default", None);
    assert_eq!(plan.pattern, "qemu");
    assert!(plan.found_qemu_ports);
    assert_eq!(
        plan.links,
        vec![
            link("QEMU:output_FL", "audiomock-sink-default:input_FL"),
            link("QEMU:output_FR", "audiomock-sink-default:input_FR"),
            link("audiomock-source-default:output_FL", "qemu:input_MONO"),
        ]
    );
}

#[test]
fn plan_without_qemu_ports() {
    let plan = plan_links(OUTPUTS, INPUTS, "default", Some("firefox"));
    assert_eq!(plan.pattern, "firefox");
    assert!(!plan.found_qemu_ports);
    assert!(plan.links.is_empty());
}

#[test]
fn plan_for_other_device_links_nothing_of_ours() {
    let plan = plan_links(OUTPUTS, INPUTS, "other", None);
    assert!(plan.found_qemu_ports);
    assert!(plan.links.is_empty());
}

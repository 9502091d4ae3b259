use wgbridge::routing::{forwarding_enabled, iptables_outcome, setup_nat, IptablesOutcome, NatAction};

fn strs(v: &[&str]) -> Vec<String> {
    v.iter().map(|s| s.to_string()).collect()
}

fn expected_commands(lan: &str, wg: &str) -> Vec<Vec<String>> {
    let mut out = Vec::new();
    for op in ["-D", "-A"] {
        out.push(strs(&["-t", "nat", op, "POSTROUTING", "-o", wg, "-j", "MASQUERADE"]));
        out.push(strs(&[op, "FORWARD", "-i", lan, "-o", wg, "-j", "ACCEPT"]));
        out.push(strs(&[
            op, "FORWARD", "-i", wg, "-o", lan, "-m", "state", "--state", "RELATED,ESTABLISHED",
            "-j", "ACCEPT",
        ]));
    }
    out
}

/// Drives a setup, answering each command with the outcome `answer` gives for its index.
fn drive(lan: &str, wg: &str, answer: impl Fn(usize) -> IptablesOutcome) -> (Vec<Vec<String>>, Result<(), String>) {
    let mut nat = setup_nat(lan, wg);
    let mut ran = Vec::new();
    loop {
        match nat.next_action() {
            NatAction::Run(args) => {
                let o = answer(ran.len());
                ran.push(args);
                nat.record(o);
            }
            NatAction::Finished(r) => return (ran, r),
        }
    }
}

#[test]
fn all_success_runs_six_commands_in_order() {
    let (ran, result) = drive("end0", "wg-wgbridge0", |_| IptablesOutcome::Succeeded);
    assert_eq!(ran, expected_commands("end0", "wg-wgbridge0"));
    assert_eq!(result, Ok(()));
}

#[test]
fn failed_deletions_are_ignored() {
    let (ran, result) = drive("eth0", "wg0", |i| {
        if i < 3 { IptablesOutcome::Failed("iptables failed: no rule".into()) } else { IptablesOutcome::Succeeded }
    });
    assert_eq!(ran.len(), 6);
    assert_eq!(result, Ok(()));
}

#[test]
fn failed_addition_stops_the_setup() {
    let (ran, result) = drive("eth0", "wg0", |i| {
        if i == 4 { IptablesOutcome::Failed("iptables failed: denied".into()) } else { IptablesOutcome::Succeeded }
    });
    assert_eq!(ran.len(), 5);
    assert_eq!(ran, expected_commands("eth0", "wg0")[..5].to_vec());
    assert_eq!(result, Err("iptables failed: denied".to_string()));
}

#[test]
fn first_addition_failure_stops_after_four() {
    let (ran, result) = drive("eth0", "wg0", |_| IptablesOutcome::Failed("x".into()));
    assert_eq!(ran.len(), 4);
    assert_eq!(result, Err("x".to_string()));
}

#[test]
fn recording_after_the_end_changes_nothing() {
    let mut nat = setup_nat("a", "b");
    for _ in 0..6 {
        nat.record(IptablesOutcome::Succeeded);
    }
    nat.record(IptablesOutcome::Failed("late".into()));
    match nat.next_action() {
        NatAction::Finished(r) => assert_eq!(r, Ok(())),
        NatAction::Run(_) => panic!("setup should be over"),
    }
}

#[test]
fn deletions_mirror_additions() {
    let cmds = expected_commands("l", "w");
    let (ran, _) = drive("l", "w", |_| IptablesOutcome::Succeeded);
    for i in 0..3 {
        let mut add = ran[i + 3].clone();
        let pos = if i == 0 { 2 } else { 0 };
        assert_eq!(add[pos], "-A");
        add[pos] = "-D".into();
        assert_eq!(add, ran[i]);
        assert_eq!(ran[i], cmds[i]);
    }
}

#[test]
fn iptables_outcome_success() {
    assert!(matches!(iptables_outcome(true, b"ignored"), IptablesOutcome::Succeeded));
}

#[test]
fn iptables_outcome_failure_message() {
    match iptables_outcome(false, b"iptables: Bad rule.\n") {
        IptablesOutcome::Failed(m) => assert_eq!(m, "iptables failed: iptables: Bad rule.\n"),
        IptablesOutcome::Succeeded => panic!("expected failure"),
    }
}

#[test]
fn iptables_outcome_invalid_utf8() {
    match iptables_outcome(false, &[0x66, 0xff, 0x6f]) {
        IptablesOutcome::Failed(m) => assert_eq!(m, "iptables failed: f\u{FFFD}o"),
        IptablesOutcome::Succeeded => panic!("expected failure"),
    }
}

#[test]
fn forwarding_enabled_reads_proc_content() {
    assert!(forwarding_enabled("1\n"));
    assert!(forwarding_enabled(" 1 "));
    assert!(!forwarding_enabled("0\n"));
    assert!(!forwarding_enabled(""));
    assert!(!forwarding_enabled("11"));
}

#[test]
fn iptables_failure_message_text() {
    match wgbridge::routing::iptables_failure("No chain/target/match by that name.") {
        IptablesOutcome::Failed(m) => assert_eq!(m, "iptables failed: No chain/target/match by that name."),
        IptablesOutcome::Succeeded => panic!("expected failure"),
    }
}

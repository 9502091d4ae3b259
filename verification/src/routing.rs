//! NAT forwarding between the LAN interface and the WireGuard tunnel:
//! which `iptables` commands to run, in which order, and what their outcomes mean.
use vstd::prelude::*;
use vstd::utf8::{decode_utf8, valid_utf8};
use crate::text::{has_prefix, trimmed, trim};

verus! {

/// How one run of `iptables` ended.
pub enum IptablesOutcome {
    Succeeded,
    /// The run failed; the message says why.
    Failed(String),
}

/// The failure message of an outcome, if it failed.
pub open spec fn outcome_failure(o: IptablesOutcome) -> Option<Seq<char>> {
    match o {
        IptablesOutcome::Succeeded => None,
        IptablesOutcome::Failed(m) => Some(m@),
    }
}

/// What the NAT setup asks for next.
pub enum NatAction {
    /// Run `iptables` with these arguments and report the outcome.
    Run(Vec<String>),
    /// The setup is over, with this result.
    Finished(Result<(), String>),
}

/// `NatAction` over plain values.
pub enum NatStep {
    Run(Seq<Seq<char>>),
    Finished(Result<(), Seq<char>>),
}

impl View for NatAction {
    type V = NatStep;

    open spec fn view(&self) -> NatStep {
        match self {
            NatAction::Run(args) => NatStep::Run(args.deep_view()),
            NatAction::Finished(Ok(())) => NatStep::Finished(Ok(())),
            NatAction::Finished(Err(m)) => NatStep::Finished(Err(m@)),
        }
    }
}

/// Masquerade what leaves through the tunnel (`op` is `-A` to add, `-D` to delete).
pub open spec fn masquerade_rule(op: Seq<char>, wg: Seq<char>) -> Seq<Seq<char>> {
    seq!["-t"@, "nat"@, op, "POSTROUTING"@, "-o"@, wg, "-j"@, "MASQUERADE"@]
}

/// Accept forwarding from the LAN interface into the tunnel.
pub open spec fn forward_rule(op: Seq<char>, lan: Seq<char>, wg: Seq<char>) -> Seq<Seq<char>> {
    seq![op, "FORWARD"@, "-i"@, lan, "-o"@, wg, "-j"@, "ACCEPT"@]
}

/// Accept established and related traffic coming back from the tunnel.
pub open spec fn return_rule(op: Seq<char>, lan: Seq<char>, wg: Seq<char>) -> Seq<Seq<char>> {
    seq![
        op,
        "FORWARD"@,
        "-i"@,
        wg,
        "-o"@,
        lan,
        "-m"@,
        "state"@,
        "--state"@,
        "RELATED,ESTABLISHED"@,
        "-j"@,
        "ACCEPT"@,
    ]
}

/// The three gateway rules under one operation.
pub open spec fn nat_rules(op: Seq<char>, lan: Seq<char>, wg: Seq<char>) -> Seq<Seq<Seq<char>>> {
    seq![masquerade_rule(op, wg), forward_rule(op, lan, wg), return_rule(op, lan, wg)]
}

/// The six commands of a NAT setup: first the deletion of any earlier copy
/// of each rule, then the rules themselves.
pub open spec fn nat_commands(lan: Seq<char>, wg: Seq<char>) -> Seq<Seq<Seq<char>>> {
    nat_rules("-D"@, lan, wg) + nat_rules("-A"@, lan, wg)
}

/// A deletion may fail (there may be nothing to delete); an addition may not.
pub open spec fn nat_command_required(k: int) -> bool {
    k >= 3
}

/// The decision after the commands before `k` ran with `outcomes`: walk the
/// commands in order; one that has not run yet is the next to run, a failed
/// addition ends the setup with its message, and when all six have run the
/// setup has succeeded.
pub open spec fn nat_decision_from(
    lan: Seq<char>,
    wg: Seq<char>,
    outcomes: Seq<IptablesOutcome>,
    k: int,
) -> NatStep
    decreases 6 - k,
{
    if k >= 6 {
        NatStep::Finished(Ok(()))
    } else if k >= outcomes.len() {
        NatStep::Run(nat_commands(lan, wg)[k])
    } else if nat_command_required(k) && outcome_failure(outcomes[k]) is Some {
        NatStep::Finished(Err(outcome_failure(outcomes[k])->0))
    } else {
        nat_decision_from(lan, wg, outcomes, k + 1)
    }
}

/// The decision of a NAT setup whose commands so far ended with `outcomes`.
pub open spec fn nat_decision(lan: Seq<char>, wg: Seq<char>, outcomes: Seq<IptablesOutcome>) -> NatStep {
    nat_decision_from(lan, wg, outcomes, 0)
}

/// A NAT setup in progress: the two interfaces and the outcomes of the
/// commands run so far.
pub struct NatSetup {
    lan_interface: String,
    wg_interface: String,
    outcomes: Vec<IptablesOutcome>,
}

pub struct NatSetupView {
    pub lan_interface: Seq<char>,
    pub wg_interface: Seq<char>,
    pub outcomes: Seq<IptablesOutcome>,
}

impl View for NatSetup {
    type V = NatSetupView;

    closed spec fn view(&self) -> NatSetupView {
        NatSetupView {
            lan_interface: self.lan_interface@,
            wg_interface: self.wg_interface@,
            outcomes: self.outcomes@,
        }
    }
}

impl NatSetupView {
    /// What this setup decides next.
    pub open spec fn decision(self) -> NatStep {
        nat_decision(self.lan_interface, self.wg_interface, self.outcomes)
    }
}

/// Starts setting up NAT so that traffic from `lan_interface` leaves through
/// `wg_interface`: no command has run yet.
pub fn setup_nat(lan_interface: &str, wg_interface: &str) -> (setup: NatSetup)
    ensures
        setup@ == (NatSetupView {
            lan_interface: lan_interface@,
            wg_interface: wg_interface@,
            outcomes: Seq::<IptablesOutcome>::empty(),
        }),
{
    NatSetup {
        lan_interface: String::from_str(lan_interface),
        wg_interface: String::from_str(wg_interface),
        outcomes: Vec::new(),
    }
}

fn rule_args(k: usize, lan: &str, wg: &str) -> (args: Vec<String>)
    requires
        k < 6,
    ensures
        args.deep_view() == nat_commands(lan@, wg@)[k as int],
{
    let op = if k < 3 {
        "-D"
    } else {
        "-A"
    };
    let ghost opv = if k < 3 {
        "-D"@
    } else {
        "-A"@
    };
    let r = k % 3;
    let args = if r == 0 {
        vec![
            String::from_str("-t"),
            String::from_str("nat"),
            String::from_str(op),
            String::from_str("POSTROUTING"),
            String::from_str("-o"),
            String::from_str(wg),
            String::from_str("-j"),
            String::from_str("MASQUERADE"),
        ]
    } else if r == 1 {
        vec![
            String::from_str(op),
            String::from_str("FORWARD"),
            String::from_str("-i"),
            String::from_str(lan),
            String::from_str("-o"),
            String::from_str(wg),
            String::from_str("-j"),
            String::from_str("ACCEPT"),
        ]
    } else {
        vec![
            String::from_str(op),
            String::from_str("FORWARD"),
            String::from_str("-i"),
            String::from_str(wg),
            String::from_str("-o"),
            String::from_str(lan),
            String::from_str("-m"),
            String::from_str("state"),
            String::from_str("--state"),
            String::from_str("RELATED,ESTABLISHED"),
            String::from_str("-j"),
            String::from_str("ACCEPT"),
        ]
    };
    proof {
        let cmds = nat_commands(lan@, wg@);
        assert(cmds[k as int] == nat_rules(opv, lan@, wg@)[r as int]);
        if r == 0 {
            assert(args.deep_view() =~= masquerade_rule(opv, wg@));
        } else if r == 1 {
            assert(args.deep_view() =~= forward_rule(opv, lan@, wg@));
        } else {
            assert(args.deep_view() =~= return_rule(opv, lan@, wg@));
        }
    }
    args
}

impl NatSetup {
    /// The next command to run, or the end of the setup with its result.
    pub fn next_action(&self) -> (action: NatAction)
        ensures
            action@ == self@.decision(),
    {
        let mut k: usize = 0;
        while k < 6
            invariant
                k <= 6,
                nat_decision_from(self@.lan_interface, self@.wg_interface, self@.outcomes, k as int)
                    == self@.decision(),
            decreases 6 - k,
        {
            if k >= self.outcomes.len() {
                let args = rule_args(k, self.lan_interface.as_str(), self.wg_interface.as_str());
                return NatAction::Run(args);
            }
            if k >= 3 {
                match &self.outcomes[k] {
                    IptablesOutcome::Failed(m) => {
                        return NatAction::Finished(Err(m.clone()));
                    },
                    IptablesOutcome::Succeeded => {},
                }
            }
            k += 1;
        }
        NatAction::Finished(Ok(()))
    }

    /// Records the outcome of the command that `next_action` asked for. Once
    /// the setup is over, nothing is recorded.
    pub fn record(&mut self, outcome: IptablesOutcome)
        ensures
            old(self)@.decision() is Run ==> final(self)@ == (NatSetupView {
                outcomes: old(self)@.outcomes.push(outcome),
                ..old(self)@
            }),
            !(old(self)@.decision() is Run) ==> final(self)@ == old(self)@,
    {
        let action = self.next_action();
        match action {
            NatAction::Run(_) => {
                self.outcomes.push(outcome);
            },
            NatAction::Finished(_) => {},
        }
    }
}

/// The name for what `String::from_utf8_lossy` makes of some bytes; a
/// function of the bytes alone.
pub uninterp spec fn lossy_text(bytes: Seq<u8>) -> Seq<char>;

/// `String::from_utf8_lossy`. Claimed: the text is `lossy_text` of the bytes,
/// and for valid UTF-8 it is the decoded text. How invalid sequences are
/// replaced is left unsaid.
#[verifier::external_body]
fn utf8_lossy(bytes: &[u8]) -> (text: String)
    ensures
        text@ == lossy_text(bytes@),
        valid_utf8(bytes@) ==> text@ == decode_utf8(bytes@),
{
    String::from_utf8_lossy(bytes).into_owned()
}

/// The message of an `iptables` run that exited with failure.
pub open spec fn iptables_failure_message(stderr: Seq<char>) -> Seq<char> {
    "iptables failed: "@ + stderr
}

/// The outcome of an `iptables` run from its exit status and error output.
pub fn iptables_outcome(success: bool, stderr: &[u8]) -> (outcome: IptablesOutcome)
    ensures
        success ==> outcome_failure(outcome) is None,
        !success ==> outcome_failure(outcome) == Some(iptables_failure_message(lossy_text(stderr@))),
        !success && valid_utf8(stderr@) ==> outcome_failure(outcome) == Some(
            iptables_failure_message(decode_utf8(stderr@)),
        ),
{
    if success {
        IptablesOutcome::Succeeded
    } else {
        let text = utf8_lossy(stderr);
        iptables_failure(text.as_str())
    }
}

/// The outcome of an `iptables` run that exited with failure, from its error
/// output as text.
pub fn iptables_failure(stderr: &str) -> (outcome: IptablesOutcome)
    ensures
        outcome_failure(outcome) == Some(iptables_failure_message(stderr@)),
{
    IptablesOutcome::Failed(String::from_str("iptables failed: ").concat(stderr))
}

/// Whether the content of `/proc/sys/net/ipv4/ip_forward` says forwarding is on.
pub fn forwarding_enabled(content: &str) -> (enabled: bool)
    ensures
        enabled == (trimmed(content@) == "1"@),
{
    let t = trim(content);
    let one = String::from_str("1");
    t == one
}

/// Whether every addition among the outcomes from `lo` up to `hi` succeeded.
pub open spec fn additions_succeeded(outcomes: Seq<IptablesOutcome>, lo: int, hi: int) -> bool {
    forall|i: int|
        lo <= i < hi && nat_command_required(i) ==> #[trigger] outcome_failure(outcomes[i]) is None
}

proof fn lemma_decision_skips_successes(
    lan: Seq<char>,
    wg: Seq<char>,
    outcomes: Seq<IptablesOutcome>,
    j: int,
    k: int,
)
    requires
        0 <= j <= k <= 6,
        k <= outcomes.len(),
        additions_succeeded(outcomes, j, k),
    ensures
        nat_decision_from(lan, wg, outcomes, j) == nat_decision_from(lan, wg, outcomes, k),
    decreases k - j,
{
    if j < k {
        assert(outcome_failure(outcomes[j]) is None || !nat_command_required(j));
        lemma_decision_skips_successes(lan, wg, outcomes, j + 1, k);
    }
}

/// While the additions succeed, the setup runs its six commands one after
/// the other in order, whatever the deletions gave; when all six have run
/// it has succeeded.
pub proof fn law_nat_runs_commands_in_order(
    lan: Seq<char>,
    wg: Seq<char>,
    outcomes: Seq<IptablesOutcome>,
)
    requires
        additions_succeeded(outcomes, 0, outcomes.len() as int),
    ensures
        outcomes.len() < 6 ==> nat_decision(lan, wg, outcomes) == NatStep::Run(
            nat_commands(lan, wg)[outcomes.len() as int],
        ),
        outcomes.len() >= 6 ==> nat_decision(lan, wg, outcomes) == NatStep::Finished(Ok(())),
{
    if outcomes.len() < 6 {
        lemma_decision_skips_successes(lan, wg, outcomes, 0, outcomes.len() as int);
    } else {
        lemma_decision_skips_successes(lan, wg, outcomes, 0, 6);
    }
}

/// The first failed addition ends the setup with its message; nothing more is run.
pub proof fn law_nat_stops_at_failed_addition(
    lan: Seq<char>,
    wg: Seq<char>,
    outcomes: Seq<IptablesOutcome>,
    k: int,
)
    requires
        3 <= k < 6,
        k < outcomes.len(),
        outcome_failure(outcomes[k]) is Some,
        additions_succeeded(outcomes, 0, k),
    ensures
        nat_decision(lan, wg, outcomes) == NatStep::Finished(Err(outcome_failure(outcomes[k])->0)),
{
    lemma_decision_skips_successes(lan, wg, outcomes, 0, k);
}

/// A setup never asks for more than six commands: with six outcomes it is over.
pub proof fn law_nat_at_most_six_commands(
    lan: Seq<char>,
    wg: Seq<char>,
    outcomes: Seq<IptablesOutcome>,
)
    requires
        outcomes.len() >= 6,
    ensures
        nat_decision(lan, wg, outcomes) is Finished,
{
    lemma_finished_from(lan, wg, outcomes, 0);
}

proof fn lemma_finished_from(lan: Seq<char>, wg: Seq<char>, outcomes: Seq<IptablesOutcome>, j: int)
    requires
        outcomes.len() >= 6,
        0 <= j,
    ensures
        nat_decision_from(lan, wg, outcomes, j) is Finished,
    decreases 6 - j,
{
    if j < 6 {
        lemma_finished_from(lan, wg, outcomes, j + 1);
    }
}

/// Where the `-A`/`-D` operation stands in the arguments of each rule.
pub open spec fn op_position(rule: int) -> int {
    if rule == 0 {
        2
    } else {
        0
    }
}

/// Each deletion that flushes an earlier copy is exactly the rule that the
/// setup adds, with `-D` in place of `-A`.
pub proof fn law_deletions_match_additions(lan: Seq<char>, wg: Seq<char>, rule: int)
    requires
        0 <= rule < 3,
    ensures
        nat_commands(lan, wg)[rule + 3][op_position(rule)] == "-A"@,
        nat_commands(lan, wg)[rule] == nat_commands(lan, wg)[rule + 3].update(
            op_position(rule),
            "-D"@,
        ),
{
    let cmds = nat_commands(lan, wg);
    assert(cmds[rule] == nat_rules("-D"@, lan, wg)[rule]);
    assert(cmds[rule + 3] == nat_rules("-A"@, lan, wg)[rule]);
    if rule == 0 {
        assert(masquerade_rule("-D"@, wg) =~= masquerade_rule("-A"@, wg).update(2, "-D"@));
    } else if rule == 1 {
        assert(forward_rule("-D"@, lan, wg) =~= forward_rule("-A"@, lan, wg).update(0, "-D"@));
    } else {
        assert(return_rule("-D"@, lan, wg) =~= return_rule("-A"@, lan, wg).update(0, "-D"@));
    }
}

/// The six commands name both interfaces exactly as given, in the places
/// `iptables` reads them: the masquerade rule leaves through `wg`, the
/// forward rule goes in from `lan` and out through `wg`, the return rule
/// goes in from `wg` and out through `lan`; the first three delete (`-D`),
/// the last three add (`-A`).
pub proof fn law_nat_commands_name_interfaces(lan: Seq<char>, wg: Seq<char>)
    ensures
        nat_commands(lan, wg).len() == 6,
        forall|k: int|
            0 <= k < 6 ==> {
                let op = if k < 3 {
                    "-D"@
                } else {
                    "-A"@
                };
                &&& k % 3 == 0 ==> #[trigger] nat_commands(lan, wg)[k] == seq![
                    "-t"@,
                    "nat"@,
                    op,
                    "POSTROUTING"@,
                    "-o"@,
                    wg,
                    "-j"@,
                    "MASQUERADE"@,
                ]
                &&& k % 3 == 1 ==> nat_commands(lan, wg)[k] == seq![
                    op,
                    "FORWARD"@,
                    "-i"@,
                    lan,
                    "-o"@,
                    wg,
                    "-j"@,
                    "ACCEPT"@,
                ]
                &&& k % 3 == 2 ==> nat_commands(lan, wg)[k] == seq![
                    op,
                    "FORWARD"@,
                    "-i"@,
                    wg,
                    "-o"@,
                    lan,
                    "-m"@,
                    "state"@,
                    "--state"@,
                    "RELATED,ESTABLISHED"@,
                    "-j"@,
                    "ACCEPT"@,
                ]
            },
{
    let c = nat_commands(lan, wg);
    assert forall|k: int| 0 <= k < 6 implies {
        let op = if k < 3 {
            "-D"@
        } else {
            "-A"@
        };
        &&& k % 3 == 0 ==> #[trigger] c[k] == seq![
            "-t"@,
            "nat"@,
            op,
            "POSTROUTING"@,
            "-o"@,
            wg,
            "-j"@,
            "MASQUERADE"@,
        ]
        &&& k % 3 == 1 ==> c[k] == seq![op, "FORWARD"@, "-i"@, lan, "-o"@, wg, "-j"@, "ACCEPT"@]
        &&& k % 3 == 2 ==> c[k] == seq![
            op,
            "FORWARD"@,
            "-i"@,
            wg,
            "-o"@,
            lan,
            "-m"@,
            "state"@,
            "--state"@,
            "RELATED,ESTABLISHED"@,
            "-j"@,
            "ACCEPT"@,
        ]
    } by {
        if k < 3 {
            assert(c[k] == nat_rules("-D"@, lan, wg)[k]);
        } else {
            assert(c[k] == nat_rules("-A"@, lan, wg)[k - 3]);
        }
    }
}

/// The failure message keeps the whole error output of `iptables`, behind
/// the words `iptables failed: `.
pub proof fn law_failure_message_keeps_stderr(stderr: Seq<char>)
    ensures
        has_prefix(iptables_failure_message(stderr), "iptables failed: "@),
        iptables_failure_message(stderr).len() == "iptables failed: "@.len() + stderr.len(),
        iptables_failure_message(stderr).subrange(
            "iptables failed: "@.len() as int,
            iptables_failure_message(stderr).len() as int,
        ) == stderr,
{
    let m = iptables_failure_message(stderr);
    let p = "iptables failed: "@;
    assert(m.subrange(0, p.len() as int) =~= p);
    assert(m.subrange(p.len() as int, m.len() as int) =~= stderr);
}

} // verus!

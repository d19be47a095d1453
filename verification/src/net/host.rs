//! What to do to the host: bridges, TAP devices and iptables rules, as
//! commands for the program to run. All of it is idempotent: check before
//! creating, skip what is absent on deleting.

use vstd::prelude::*;

use crate::error::Error;
use crate::net::cidr::Ipv4Net;
use crate::net::state::ProjectSetup;
use crate::net::types::TapName;
use crate::net::BRIDGE_PREFIX;
use crate::text;

verus! {

/// One step on the host. An `argv` begins with the program.
#[derive(Debug)]
pub enum HostStep {
    /// Run the command; its failure fails the whole.
    Run { argv: Vec<String> },
    /// Run the command unless the link exists.
    RunUnlessLink { link: String, argv: Vec<String> },
    /// If the link exists, run the commands in turn, up to the first that
    /// fails.
    RunIfLink { link: String, argvs: Vec<Vec<String>> },
    /// Run `check`; unless it succeeds, run the command.
    RunUnless { check: Vec<String>, argv: Vec<String> },
    /// Run the command and ignore how it ends.
    TryRun { argv: Vec<String> },
    /// Switch IPv4 forwarding on unless it is on.
    EnableForwarding,
}

/// A step, by its texts.
pub enum StepView {
    Run { argv: Seq<Seq<char>> },
    RunUnlessLink { link: Seq<char>, argv: Seq<Seq<char>> },
    RunIfLink { link: Seq<char>, argvs: Seq<Seq<Seq<char>>> },
    RunUnless { check: Seq<Seq<char>>, argv: Seq<Seq<char>> },
    TryRun { argv: Seq<Seq<char>> },
    EnableForwarding,
}

impl View for HostStep {
    type V = StepView;

    open spec fn view(&self) -> StepView {
        match *self {
            HostStep::Run { argv } => StepView::Run { argv: text::views(argv@) },
            HostStep::RunUnlessLink { link, argv } => StepView::RunUnlessLink {
                link: link@,
                argv: text::views(argv@),
            },
            HostStep::RunIfLink { link, argvs } => StepView::RunIfLink {
                link: link@,
                argvs: rules_view(argvs@),
            },
            HostStep::RunUnless { check, argv } => StepView::RunUnless {
                check: text::views(check@),
                argv: text::views(argv@),
            },
            HostStep::TryRun { argv } => StepView::TryRun { argv: text::views(argv@) },
            HostStep::EnableForwarding => StepView::EnableForwarding,
        }
    }
}

/// Steps, by their texts.
pub open spec fn steps_view(steps: Seq<HostStep>) -> Seq<StepView> {
    steps.map_values(|s: HostStep| s@)
}

/// Borrowed view of a built rule.
pub fn str_refs(rule: &[String]) -> (refs: Vec<&str>)
    ensures
        text::str_views(refs@) == text::views(rule@),
{
    let mut refs: Vec<&str> = Vec::new();
    let mut i: usize = 0;
    while i < rule.len()
        invariant
            i <= rule@.len(),
            text::str_views(refs@) == text::views(rule@).take(i as int),
        decreases rule@.len() - i,
    {
        let ghost before = refs@;
        refs.push(rule[i].as_str());
        proof {
            assert(text::str_views(refs@) =~= text::str_views(before).push(rule@[i as int]@));
            assert(text::views(rule@).take(i as int + 1) =~= text::views(rule@).take(
                i as int,
            ).push(rule@[i as int]@));
        }
        i += 1;
    }
    proof {
        assert(text::views(rule@).take(i as int) =~= text::views(rule@));
    }
    refs
}

/// What to do so that the TAP exists and is up on the bridge.
pub open spec fn ensure_tap_steps(tap: Seq<char>, bridge: Seq<char>) -> Seq<StepView> {
    seq![
        StepView::RunUnlessLink {
            link: tap,
            argv: seq!["ip"@, "tuntap"@, "add"@, "dev"@, tap, "mode"@, "tap"@],
        },
        StepView::Run { argv: seq!["ip"@, "link"@, "set"@, tap, "master"@, bridge, "up"@] },
    ]
}

/// Creates the TAP unless it exists, and brings it up on the bridge.
pub fn ensure_tap(tap: &TapName, bridge: &str) -> (steps: Vec<HostStep>)
    ensures
        steps_view(steps@) == ensure_tap_steps(tap.0@, bridge@),
{
    let name = tap.0.as_str();
    let mut steps: Vec<HostStep> = Vec::new();
    let create = text::owned(&["ip", "tuntap", "add", "dev", name, "mode", "tap"]);
    let raise = text::owned(&["ip", "link", "set", name, "master", bridge, "up"]);
    proof {
        assert(text::views(create@) =~= seq![
            "ip"@,
            "tuntap"@,
            "add"@,
            "dev"@,
            tap.0@,
            "mode"@,
            "tap"@,
        ]);
        assert(text::views(raise@) =~= seq![
            "ip"@,
            "link"@,
            "set"@,
            tap.0@,
            "master"@,
            bridge@,
            "up"@,
        ]);
    }
    steps.push(HostStep::RunUnlessLink { link: tap.0.clone(), argv: create });
    steps.push(HostStep::Run { argv: raise });
    proof {
        assert(steps_view(steps@) =~= ensure_tap_steps(tap.0@, bridge@));
    }
    steps
}

/// What to do so that the TAP is gone.
pub open spec fn delete_tap_steps(tap: Seq<char>) -> Seq<StepView> {
    seq![StepView::RunIfLink { link: tap, argvs: seq![seq!["ip"@, "link"@, "del"@, tap]] }]
}

/// Deletes the TAP if it exists.
pub fn delete_tap(tap: &TapName) -> (steps: Vec<HostStep>)
    ensures
        steps_view(steps@) == delete_tap_steps(tap.0@),
{
    let argv = text::owned(&["ip", "link", "del", tap.0.as_str()]);
    let mut steps: Vec<HostStep> = Vec::new();
    proof {
        assert(text::views(argv@) =~= seq!["ip"@, "link"@, "del"@, tap.0@]);
    }
    let argvs = vec![argv];
    proof {
        assert(rules_view(argvs@) =~= seq![seq!["ip"@, "link"@, "del"@, tap.0@]]);
    }
    steps.push(HostStep::RunIfLink { link: tap.0.clone(), argvs });
    proof {
        assert(steps_view(steps@) =~= delete_tap_steps(tap.0@));
    }
    steps
}

// ---------------------------------------------------------------------------
// iptables rules
// ---------------------------------------------------------------------------

/// Commands or rules, by their texts.
pub open spec fn rules_view(rules: Seq<Vec<String>>) -> Seq<Seq<Seq<char>>> {
    rules.map_values(|r: Vec<String>| text::views(r@))
}

/// The iptables arguments wiring up a project's subnet, with `verb` spliced
/// in: egress NAT for anything not heading back into a project bridge, plus
/// the two FORWARD accepts. The NAT rule matches on the egress interface, not
/// the destination, so that traffic between projects keeps its real source.
pub open spec fn wiring(subnet: Seq<char>, verb: Seq<char>) -> Seq<Seq<Seq<char>>> {
    seq![
        seq![
            "-t"@,
            "nat"@,
            verb,
            "POSTROUTING"@,
            "-s"@,
            subnet,
            "!"@,
            "-o"@,
            BRIDGE_PREFIX@ + "+"@,
            "-j"@,
            "MASQUERADE"@,
        ],
        seq![verb, "FORWARD"@, "-s"@, subnet, "-j"@, "ACCEPT"@],
        seq![
            verb,
            "FORWARD"@,
            "-d"@,
            subnet,
            "-m"@,
            "conntrack"@,
            "--ctstate"@,
            "RELATED,ESTABLISHED"@,
            "-j"@,
            "ACCEPT"@,
        ],
    ]
}

/// The iptables rules wiring up a project bridge, with `verb` spliced in.
/// Setting up and tearing down share it, so the two cannot drift apart.
pub fn nat_rules(setup: &ProjectSetup, verb: &str) -> (rules: Vec<Vec<String>>)
    ensures
        rules_view(rules@) == wiring(crate::net::cidr::net_text(setup.subnet), verb@),
{
    let subnet = setup.subnet.to_text();
    let egress = text::cat2(BRIDGE_PREFIX, "+");
    let masq = text::owned(
        &[
            "-t",
            "nat",
            verb,
            "POSTROUTING",
            "-s",
            subnet.as_str(),
            "!",
            "-o",
            egress.as_str(),
            "-j",
            "MASQUERADE",
        ],
    );
    let out = text::owned(&[verb, "FORWARD", "-s", subnet.as_str(), "-j", "ACCEPT"]);
    let back = text::owned(
        &[
            verb,
            "FORWARD",
            "-d",
            subnet.as_str(),
            "-m",
            "conntrack",
            "--ctstate",
            "RELATED,ESTABLISHED",
            "-j",
            "ACCEPT",
        ],
    );
    let ghost w = wiring(subnet@, verb@);
    proof {
        assert(text::views(masq@) =~= w[0]);
        assert(text::views(out@) =~= w[1]);
        assert(text::views(back@) =~= w[2]);
    }
    let mut rules: Vec<Vec<String>> = Vec::new();
    rules.push(masq);
    rules.push(out);
    rules.push(back);
    proof {
        assert(rules_view(rules@) =~= w);
    }
    rules
}

/// Older forms of the NAT rule, as deletions: an unrestricted one, and one
/// leaving out destinations in the supernet.
pub open spec fn legacy_wiring(subnet: Seq<char>, supernet: Seq<char>) -> Seq<Seq<Seq<char>>> {
    seq![
        seq!["-t"@, "nat"@, "-D"@, "POSTROUTING"@, "-s"@, subnet, "-j"@, "MASQUERADE"@],
        seq![
            "-t"@,
            "nat"@,
            "-D"@,
            "POSTROUTING"@,
            "-s"@,
            subnet,
            "!"@,
            "-d"@,
            supernet,
            "-j"@,
            "MASQUERADE"@,
        ],
    ]
}

/// Older forms of the NAT rule: only ever removed, never added.
pub fn legacy_masq_rules(setup: &ProjectSetup) -> (rules: Vec<Vec<String>>)
    ensures
        rules_view(rules@) == legacy_wiring(
            crate::net::cidr::net_text(setup.subnet),
            crate::net::cidr::net_text(setup.supernet),
        ),
{
    let subnet = setup.subnet.to_text();
    let supernet = setup.supernet.to_text();
    let first = text::owned(
        &["-t", "nat", "-D", "POSTROUTING", "-s", subnet.as_str(), "-j", "MASQUERADE"],
    );
    let second = text::owned(
        &[
            "-t",
            "nat",
            "-D",
            "POSTROUTING",
            "-s",
            subnet.as_str(),
            "!",
            "-d",
            supernet.as_str(),
            "-j",
            "MASQUERADE",
        ],
    );
    let ghost w = legacy_wiring(subnet@, supernet@);
    proof {
        assert(text::views(first@) =~= w[0]);
        assert(text::views(second@) =~= w[1]);
    }
    let mut rules: Vec<Vec<String>> = Vec::new();
    rules.push(first);
    rules.push(second);
    proof {
        assert(rules_view(rules@) =~= w);
    }
    rules
}

/// A rule with every `-A` turned into `-C`, which asks whether it is there.
pub open spec fn as_check(args: Seq<Seq<char>>) -> Seq<Seq<char>> {
    args.map_values(|a: Seq<char>| if a == "-A"@ { "-C"@ } else { a })
}

/// The arguments that ask whether a rule is there.
fn check_args(args: &[String]) -> (check: Vec<String>)
    ensures
        text::views(check@) == as_check(text::views(args@)),
{
    let mut check: Vec<String> = Vec::new();
    let mut i: usize = 0;
    while i < args.len()
        invariant
            i <= args@.len(),
            text::views(check@) == as_check(text::views(args@)).take(i as int),
        decreases args@.len() - i,
    {
        let ghost before = check@;
        if text::str_eq(&args[i], "-A") {
            check.push("-C".to_owned());
        } else {
            check.push(args[i].clone());
        }
        proof {
            let all = as_check(text::views(args@));
            assert(text::views(check@) =~= text::views(before).push(all[i as int]));
            assert(all.take(i as int + 1) =~= all.take(i as int).push(all[i as int]));
        }
        i += 1;
    }
    proof {
        assert(as_check(text::views(args@)).take(i as int) =~= as_check(text::views(args@)));
    }
    check
}

/// `iptables` with the given arguments.
pub open spec fn iptables(args: Seq<Seq<char>>) -> Seq<Seq<char>> {
    seq!["iptables"@] + args
}

/// `iptables` with the given arguments.
fn iptables_argv(args: &[String]) -> (argv: Vec<String>)
    ensures
        text::views(argv@) == iptables(text::views(args@)),
{
    let mut argv: Vec<String> = Vec::new();
    argv.push("iptables".to_owned());
    let mut rest = text::copies(args);
    argv.append(&mut rest);
    proof {
        assert(text::views(argv@) =~= iptables(text::views(args@)));
    }
    argv
}

/// Appends an iptables rule unless it is there.
pub open spec fn ensure_rule(args: Seq<Seq<char>>) -> StepView {
    StepView::RunUnless { check: iptables(as_check(args)), argv: iptables(args) }
}

/// Appends an iptables rule unless it is there: asks with `-C` first. The
/// arguments must use `-A`.
pub fn iptables_ensure(args: &[String]) -> (step: HostStep)
    ensures
        step@ == ensure_rule(text::views(args@)),
{
    let check = check_args(args);
    HostStep::RunUnless { check: iptables_argv(&check), argv: iptables_argv(args) }
}

/// Deletes an iptables rule; that it is missing is fine.
pub fn iptables_remove(args: &[String]) -> (step: HostStep)
    ensures
        step@ == (StepView::TryRun { argv: iptables(text::views(args@)) }),
{
    HostStep::TryRun { argv: iptables_argv(args) }
}

/// Removes each of the rules.
pub open spec fn remove_rules(rules: Seq<Seq<Seq<char>>>) -> Seq<StepView> {
    rules.map_values(|r: Seq<Seq<char>>| StepView::TryRun { argv: iptables(r) })
}

/// Adds each of the rules unless it is there.
pub open spec fn add_rules(rules: Seq<Seq<Seq<char>>>) -> Seq<StepView> {
    rules.map_values(|r: Seq<Seq<char>>| ensure_rule(r))
}

fn push_removals(steps: &mut Vec<HostStep>, rules: &Vec<Vec<String>>)
    ensures
        steps_view(final(steps)@) == steps_view(old(steps)@) + remove_rules(rules_view(rules@)),
{
    let ghost start = steps_view(steps@);
    let ghost all = remove_rules(rules_view(rules@));
    let mut i: usize = 0;
    proof {
        assert(start + all.take(0) =~= start);
    }
    while i < rules.len()
        invariant
            all == remove_rules(rules_view(rules@)),
            i <= rules@.len(),
            steps_view(steps@) == start + all.take(i as int),
        decreases rules@.len() - i,
    {
        let ghost before = steps@;
        steps.push(iptables_remove(&rules[i]));
        proof {
            assert(rules_view(rules@)[i as int] == text::views(rules@[i as int]@));
            assert(steps_view(steps@) =~= steps_view(before).push(all[i as int]));
            assert(all.take(i as int + 1) =~= all.take(i as int).push(all[i as int]));
            assert((start + all.take(i as int)).push(all[i as int]) =~= start + all.take(
                i as int + 1,
            ));
        }
        i += 1;
    }
    proof {
        assert(all.take(i as int) =~= all);
    }
}

fn push_additions(steps: &mut Vec<HostStep>, rules: &Vec<Vec<String>>)
    ensures
        steps_view(final(steps)@) == steps_view(old(steps)@) + add_rules(rules_view(rules@)),
{
    let ghost start = steps_view(steps@);
    let ghost all = add_rules(rules_view(rules@));
    let mut i: usize = 0;
    proof {
        assert(start + all.take(0) =~= start);
    }
    while i < rules.len()
        invariant
            all == add_rules(rules_view(rules@)),
            i <= rules@.len(),
            steps_view(steps@) == start + all.take(i as int),
        decreases rules@.len() - i,
    {
        let ghost before = steps@;
        steps.push(iptables_ensure(&rules[i]));
        proof {
            assert(rules_view(rules@)[i as int] == text::views(rules@[i as int]@));
            assert(steps_view(steps@) =~= steps_view(before).push(all[i as int]));
            assert(all.take(i as int + 1) =~= all.take(i as int).push(all[i as int]));
            assert((start + all.take(i as int)).push(all[i as int]) =~= start + all.take(
                i as int + 1,
            ));
        }
        i += 1;
    }
    proof {
        assert(all.take(i as int) =~= all);
    }
}

// ---------------------------------------------------------------------------
// Bridges
// ---------------------------------------------------------------------------

/// The gateway's address with the prefix length of its subnet.
pub open spec fn gateway_text(setup: ProjectSetup) -> Seq<char> {
    crate::net::cidr::ip_text(setup.gateway) + "/"@ + text::decimal(setup.subnet.prefix as nat)
}

/// What to do so that a project's bridge exists, has the gateway address, is
/// up and is wired up; rules of older forms go first, so that none shadows
/// the new ones.
pub open spec fn ensure_bridge_steps(setup: ProjectSetup) -> Seq<StepView> {
    let bridge = setup.bridge@;
    let subnet = crate::net::cidr::net_text(setup.subnet);
    let supernet = crate::net::cidr::net_text(setup.supernet);
    seq![
        StepView::RunUnlessLink {
            link: bridge,
            argv: seq!["ip"@, "link"@, "add"@, "name"@, bridge, "type"@, "bridge"@],
        },
        StepView::Run {
            argv: seq!["ip"@, "addr"@, "replace"@, gateway_text(setup), "dev"@, bridge],
        },
        StepView::Run { argv: seq!["ip"@, "link"@, "set"@, bridge, "up"@] },
        StepView::EnableForwarding,
    ] + remove_rules(legacy_wiring(subnet, supernet)) + add_rules(wiring(subnet, "-A"@))
}

/// Sets up a project's bridge.
pub fn ensure_bridge(setup: &ProjectSetup) -> (steps: Vec<HostStep>)
    ensures
        steps_view(steps@) == ensure_bridge_steps(*setup),
{
    let bridge = setup.bridge.as_str();
    let gateway = text::cat3(
        &setup.gateway.to_text(),
        "/",
        &text::decimal_string(setup.subnet.prefix as u64),
    );
    let create = text::owned(&["ip", "link", "add", "name", bridge, "type", "bridge"]);
    let address = text::owned(&["ip", "addr", "replace", gateway.as_str(), "dev", bridge]);
    let raise = text::owned(&["ip", "link", "set", bridge, "up"]);
    proof {
        assert(text::views(create@) =~= seq![
            "ip"@,
            "link"@,
            "add"@,
            "name"@,
            bridge@,
            "type"@,
            "bridge"@,
        ]);
        assert(text::views(address@) =~= seq![
            "ip"@,
            "addr"@,
            "replace"@,
            gateway_text(*setup),
            "dev"@,
            bridge@,
        ]);
        assert(text::views(raise@) =~= seq!["ip"@, "link"@, "set"@, bridge@, "up"@]);
    }
    let mut steps: Vec<HostStep> = Vec::new();
    steps.push(HostStep::RunUnlessLink { link: setup.bridge.clone(), argv: create });
    steps.push(HostStep::Run { argv: address });
    steps.push(HostStep::Run { argv: raise });
    steps.push(HostStep::EnableForwarding);
    let ghost head = steps_view(steps@);
    push_removals(&mut steps, &legacy_masq_rules(setup));
    push_additions(&mut steps, &nat_rules(setup, "-A"));
    proof {
        let subnet = crate::net::cidr::net_text(setup.subnet);
        let supernet = crate::net::cidr::net_text(setup.supernet);
        assert(steps_view(steps@) =~= head + remove_rules(legacy_wiring(subnet, supernet))
            + add_rules(wiring(subnet, "-A"@)));
        assert(steps_view(steps@) =~= ensure_bridge_steps(*setup));
    }
    steps
}

/// What to do so that a project's bridge and its rules are gone.
pub open spec fn delete_bridge_steps(setup: ProjectSetup) -> Seq<StepView> {
    let bridge = setup.bridge@;
    let subnet = crate::net::cidr::net_text(setup.subnet);
    let supernet = crate::net::cidr::net_text(setup.supernet);
    remove_rules(wiring(subnet, "-D"@)) + remove_rules(legacy_wiring(subnet, supernet)) + seq![
        StepView::RunIfLink {
            link: bridge,
            argvs: seq![
                seq!["ip"@, "link"@, "set"@, bridge, "down"@],
                seq!["ip"@, "link"@, "del"@, bridge],
            ],
        },
    ]
}

/// Tears a project's bridge down.
pub fn delete_bridge(setup: &ProjectSetup) -> (steps: Vec<HostStep>)
    ensures
        steps_view(steps@) == delete_bridge_steps(*setup),
{
    let bridge = setup.bridge.as_str();
    let lower = text::owned(&["ip", "link", "set", bridge, "down"]);
    let delete = text::owned(&["ip", "link", "del", bridge]);
    proof {
        assert(text::views(lower@) =~= seq!["ip"@, "link"@, "set"@, bridge@, "down"@]);
        assert(text::views(delete@) =~= seq!["ip"@, "link"@, "del"@, bridge@]);
    }
    let mut steps: Vec<HostStep> = Vec::new();
    push_removals(&mut steps, &nat_rules(setup, "-D"));
    push_removals(&mut steps, &legacy_masq_rules(setup));
    let ghost head = steps_view(steps@);
    let argvs = vec![lower, delete];
    proof {
        assert(rules_view(argvs@) =~= seq![
            seq!["ip"@, "link"@, "set"@, bridge@, "down"@],
            seq!["ip"@, "link"@, "del"@, bridge@],
        ]);
    }
    steps.push(HostStep::RunIfLink { link: setup.bridge.clone(), argvs });
    proof {
        let subnet = crate::net::cidr::net_text(setup.subnet);
        let supernet = crate::net::cidr::net_text(setup.supernet);
        assert(head =~= remove_rules(wiring(subnet, "-D"@)) + remove_rules(
            legacy_wiring(subnet, supernet),
        ));
        assert(steps_view(steps@) =~= delete_bridge_steps(*setup));
    }
    steps
}

/// Tearing down removes exactly the rules that setting up adds, and asking
/// whether they are there asks for exactly those: they differ in the verb
/// alone.
pub proof fn law_teardown_removes_what_setup_adds(subnet: Ipv4Net, i: int, j: int)
    requires
        0 <= i < 3,
        0 <= j < wiring(crate::net::cidr::net_text(subnet), "-A"@)[i].len(),
    ensures
        ({
            let net = crate::net::cidr::net_text(subnet);
            &&& wiring(net, "-D"@)[i].len() == wiring(net, "-A"@)[i].len()
            &&& wiring(net, "-D"@)[i][j] == if wiring(net, "-A"@)[i][j] == "-A"@ {
                "-D"@
            } else {
                wiring(net, "-A"@)[i][j]
            }
            &&& as_check(wiring(net, "-A"@)[i]) == wiring(net, "-C"@)[i]
        }),
{
    let net = crate::net::cidr::net_text(subnet);
    lemma_rule_words_differ();
    text::lemma_decimal_digits(crate::net::cidr::octet(subnet.addr, 0));
    assert(net[0] == text::decimal(crate::net::cidr::octet(subnet.addr, 0))[0]);
    assert("-A"@[0] == '-') by {
        reveal_strlit("-A");
    }
    assert(net != "-A"@);
    assert(as_check(wiring(net, "-A"@)[i]) =~= wiring(net, "-C"@)[i]);
}

/// No other word of a rule is `-A`.
proof fn lemma_rule_words_differ()
    ensures
        "-t"@ != "-A"@,
        "nat"@ != "-A"@,
        "POSTROUTING"@ != "-A"@,
        "-s"@ != "-A"@,
        "!"@ != "-A"@,
        "-o"@ != "-A"@,
        BRIDGE_PREFIX@ + "+"@ != "-A"@,
        "-j"@ != "-A"@,
        "MASQUERADE"@ != "-A"@,
        "FORWARD"@ != "-A"@,
        "ACCEPT"@ != "-A"@,
        "-d"@ != "-A"@,
        "-m"@ != "-A"@,
        "conntrack"@ != "-A"@,
        "--ctstate"@ != "-A"@,
        "RELATED,ESTABLISHED"@ != "-A"@,
{
    reveal_strlit("-A");
    reveal_strlit("-t");
    reveal_strlit("nat");
    reveal_strlit("POSTROUTING");
    reveal_strlit("-s");
    reveal_strlit("!");
    reveal_strlit("-o");
    reveal_strlit("tbr-");
    reveal_strlit("+");
    reveal_strlit("-j");
    reveal_strlit("MASQUERADE");
    reveal_strlit("FORWARD");
    reveal_strlit("ACCEPT");
    reveal_strlit("-d");
    reveal_strlit("-m");
    reveal_strlit("conntrack");
    reveal_strlit("--ctstate");
    reveal_strlit("RELATED,ESTABLISHED");
    assert("-A"@[1] == 'A');
    assert("-t"@[1] == 't');
    assert("-s"@[1] == 's');
    assert("-o"@[1] == 'o');
    assert("-j"@[1] == 'j');
    assert("-d"@[1] == 'd');
    assert("-m"@[1] == 'm');
    assert((BRIDGE_PREFIX@ + "+"@).len() == 5);
    assert("nat"@.len() == 3);
    assert("POSTROUTING"@.len() == 11);
    assert("!"@.len() == 1);
    assert("MASQUERADE"@.len() == 10);
    assert("FORWARD"@.len() == 7);
    assert("ACCEPT"@.len() == 6);
    assert("conntrack"@.len() == 9);
    assert("--ctstate"@.len() == 9);
    assert("RELATED,ESTABLISHED"@.len() == 19);
}

// ---------------------------------------------------------------------------
// What commands print
// ---------------------------------------------------------------------------

/// The interface name in a line of `ip -o link`: the second of the parts
/// between `": "`, up to an `@`.
pub open spec fn link_name(line: Seq<char>) -> Option<Seq<char>> {
    match text::find_text(line, ": "@) {
        None => None,
        Some(i) => {
            let rest = line.skip(i as int + 2);
            let part = match text::find_text(rest, ": "@) {
                Some(j) => rest.take(j as int),
                None => rest,
            };
            Some(part.take(text::char_index(part, '@') as int))
        },
    }
}

/// The project bridges that a listing of bridges names, in its order.
pub open spec fn bridges_in(lines: Seq<Seq<char>>) -> Seq<Seq<char>>
    decreases lines.len(),
{
    if lines.len() == 0 {
        seq![]
    } else {
        let init = bridges_in(lines.drop_last());
        match link_name(lines.last()) {
            Some(name) if text::has_prefix(name, BRIDGE_PREFIX@) => init.push(name),
            _ => init,
        }
    }
}

/// The interface name in a line of `ip -o link`.
fn parse_link_name(line: &str) -> (name: Option<String>)
    ensures
        text::opt_view(name) == link_name(line@),
{
    proof {
        reveal_strlit(": ");
        assert(": "@.len() == 2);
    }
    match text::find(line, ": ") {
        None => None,
        Some(i) => {
            let rest = text::tail_of(line, i + 2);
            let part = match text::find(&rest, ": ") {
                Some(j) => text::head_of(&rest, j),
                None => rest,
            };
            match text::split_once(&part, '@') {
                Some((head, _)) => Some(head),
                None => {
                    proof {
                        assert(part@.take(part@.len() as int) =~= part@);
                    }
                    Some(part)
                },
            }
        },
    }
}

/// Names of existing bridges with our prefix, from what
/// `ip -o link show type bridge` printed.
pub fn stray_bridges(stdout: &[u8]) -> (names: Vec<String>)
    ensures
        text::views(names@) == bridges_in(text::lines_of(text::utf8_lossy(stdout@))),
{
    let printed = text::from_utf8_lossy(stdout);
    let lines = text::lines(&printed);
    let ghost lv = text::views(lines@);
    let mut names: Vec<String> = Vec::new();
    let mut i: usize = 0;
    proof {
        assert(lv.take(0) =~= seq![]);
        assert(text::views(names@) =~= seq![]);
    }
    while i < lines.len()
        invariant
            lv == text::views(lines@),
            i <= lines@.len(),
            text::views(names@) == bridges_in(lv.take(i as int)),
        decreases lines@.len() - i,
    {
        proof {
            assert(lv.take(i as int + 1).drop_last() =~= lv.take(i as int));
            assert(lv.take(i as int + 1).last() == lines@[i as int]@);
        }
        if let Some(name) = parse_link_name(&lines[i]) {
            if text::starts_with(&name, BRIDGE_PREFIX) {
                let ghost before = names@;
                names.push(name);
                proof {
                    assert(text::views(names@) =~= text::views(before).push(name@));
                }
            }
        }
        i += 1;
    }
    proof {
        assert(lv.take(i as int) =~= lv);
    }
    names
}

/// What a failed command is reported with.
pub fn command_failed(cmd: &str, args: &[String], stderr: &[u8]) -> (e: Error)
    ensures
        e matches Error::Net(m) && m@ == cmd@ + " "@ + text::joined(text::views(args@), " "@)
            + " failed: "@ + text::trimmed(text::utf8_lossy(stderr@)),
{
    let why = text::from_utf8_lossy(stderr);
    Error::Net(text::cat5(cmd, " ", &text::join(args, " "), " failed: ", &text::trim(&why)))
}

} // verus!

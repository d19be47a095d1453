//! What the planned steps come to on a host: a small model of its links, its
//! iptables rules and forwarding, and what setting up and tearing down leave
//! behind in it.

use vstd::prelude::*;

use crate::net::cidr::{ip_text, net_text, Ipv4Net};
use crate::net::host;
use crate::net::host::StepView;
use crate::net::manager::{
    bridge_deletion, reconcile_steps, setup_steps, tap_deletions, teardown_steps, undo_steps,
};
use crate::net::state::{AllocPlan, ProjectSetup, ProjectView, ReleasePlan};
use crate::net::types::tap_for;
use crate::text;

verus! {

/// A network link of the host.
pub struct LinkView {
    pub up: bool,
    pub address: Option<Seq<char>>,
    pub master: Option<Seq<char>>,
}

/// The host's network: its links by name, its iptables rules, and whether it
/// forwards.
pub struct HostView {
    pub links: Map<Seq<char>, LinkView>,
    pub rules: Set<Seq<Seq<char>>>,
    pub forwarding: bool,
}

/// A link that was just created.
pub open spec fn new_link() -> LinkView {
    LinkView { up: false, address: None, master: None }
}

/// The host with a link changed.
pub open spec fn with_link(h: HostView, name: Seq<char>, link: LinkView) -> HostView {
    HostView { links: h.links.insert(name, link), ..h }
}

/// Where iptables arguments have their verb: behind the table, if one is named.
pub open spec fn verb_at(args: Seq<Seq<char>>) -> int {
    if args.len() > 0 && args[0] == "-t"@ {
        2
    } else {
        0
    }
}

/// The rule that iptables arguments speak of, whatever they do with it.
pub open spec fn rule_of(args: Seq<Seq<char>>) -> Seq<Seq<char>> {
    args.update(verb_at(args), seq![])
}

/// What running `iptables` comes to; nothing if it fails.
pub open spec fn ran_iptables(h: HostView, args: Seq<Seq<char>>) -> Option<HostView> {
    let rule = rule_of(args);
    let verb = args[verb_at(args)];
    if verb == "-A"@ {
        Some(HostView { rules: h.rules.insert(rule), ..h })
    } else if verb == "-D"@ && h.rules.contains(rule) {
        Some(HostView { rules: h.rules.remove(rule), ..h })
    } else if verb == "-C"@ && h.rules.contains(rule) {
        Some(h)
    } else {
        None
    }
}

/// What running `ip` comes to; nothing if it fails.
pub open spec fn ran_ip(h: HostView, argv: Seq<Seq<char>>) -> Option<HostView> {
    if argv.len() == 7 && argv[1] == "link"@ && argv[2] == "add"@ && argv[3] == "name"@ && argv[5]
        == "type"@ && argv[6] == "bridge"@ {
        if h.links.contains_key(argv[4]) {
            None
        } else {
            Some(with_link(h, argv[4], new_link()))
        }
    } else if argv.len() == 7 && argv[1] == "tuntap"@ && argv[2] == "add"@ && argv[3] == "dev"@
        && argv[5] == "mode"@ && argv[6] == "tap"@ {
        if h.links.contains_key(argv[4]) {
            None
        } else {
            Some(with_link(h, argv[4], new_link()))
        }
    } else if argv.len() == 7 && argv[1] == "link"@ && argv[2] == "set"@ && argv[4] == "master"@
        && argv[6] == "up"@ {
        if h.links.contains_key(argv[3]) && h.links.contains_key(argv[5]) {
            Some(
                with_link(
                    h,
                    argv[3],
                    LinkView { up: true, master: Some(argv[5]), ..h.links[argv[3]] },
                ),
            )
        } else {
            None
        }
    } else if argv.len() == 6 && argv[1] == "addr"@ && argv[2] == "replace"@ && argv[4] == "dev"@ {
        if h.links.contains_key(argv[5]) {
            Some(
                with_link(
                    h,
                    argv[5],
                    LinkView { address: Some(argv[3]), ..h.links[argv[5]] },
                ),
            )
        } else {
            None
        }
    } else if argv.len() == 5 && argv[1] == "link"@ && argv[2] == "set"@ && (argv[4] == "up"@
        || argv[4] == "down"@) {
        if h.links.contains_key(argv[3]) {
            Some(with_link(h, argv[3], LinkView { up: argv[4] == "up"@, ..h.links[argv[3]] }))
        } else {
            None
        }
    } else if argv.len() == 4 && argv[1] == "link"@ && argv[2] == "del"@ {
        if h.links.contains_key(argv[3]) {
            Some(HostView { links: h.links.remove(argv[3]), ..h })
        } else {
            None
        }
    } else {
        None
    }
}

/// What running a command comes to; nothing if it fails.
pub open spec fn ran(h: HostView, argv: Seq<Seq<char>>) -> Option<HostView> {
    if argv.len() > 0 && argv[0] == "iptables"@ {
        ran_iptables(h, argv.skip(1))
    } else if argv.len() > 0 && argv[0] == "ip"@ {
        ran_ip(h, argv)
    } else {
        None
    }
}

/// What running commands in turn comes to; nothing if one fails.
pub open spec fn ran_all(h: HostView, argvs: Seq<Seq<Seq<char>>>) -> Option<HostView>
    decreases argvs.len(),
{
    if argvs.len() == 0 {
        Some(h)
    } else {
        match ran_all(h, argvs.drop_last()) {
            Some(m) => ran(m, argvs.last()),
            None => None,
        }
    }
}

/// What a step comes to; nothing if it fails.
pub open spec fn performed(h: HostView, step: StepView) -> Option<HostView> {
    match step {
        StepView::Run { argv } => ran(h, argv),
        StepView::RunUnlessLink { link, argv } => if h.links.contains_key(link) {
            Some(h)
        } else {
            ran(h, argv)
        },
        StepView::RunIfLink { link, argvs } => if h.links.contains_key(link) {
            ran_all(h, argvs)
        } else {
            Some(h)
        },
        StepView::RunUnless { check, argv } => if ran(h, check) is Some {
            Some(h)
        } else {
            ran(h, argv)
        },
        StepView::TryRun { argv } => match ran(h, argv) {
            Some(m) => Some(m),
            None => Some(h),
        },
        StepView::EnableForwarding => Some(HostView { forwarding: true, ..h }),
    }
}

/// What steps come to, one after the other; nothing if one fails.
pub open spec fn carried_out(h: HostView, steps: Seq<StepView>) -> Option<HostView>
    decreases steps.len(),
{
    if steps.len() == 0 {
        Some(h)
    } else {
        match carried_out(h, steps.drop_last()) {
            Some(m) => performed(m, steps.last()),
            None => None,
        }
    }
}

/// Steps that follow others are taken where those have led.
pub proof fn lemma_carried_on(h: HostView, first: Seq<StepView>, then: Seq<StepView>)
    ensures
        carried_out(h, first + then) == match carried_out(h, first) {
            Some(m) => carried_out(m, then),
            None => None,
        },
    decreases then.len(),
{
    if then.len() == 0 {
        assert(first + then =~= first);
    } else {
        lemma_carried_on(h, first, then.drop_last());
        assert((first + then).drop_last() =~= first + then.drop_last());
        assert((first + then).last() == then.last());
    }
}

proof fn lemma_one(h: HostView, step: StepView)
    ensures
        carried_out(h, seq![step]) == performed(h, step),
{
    assert(seq![step].drop_last() =~= seq![]);
    assert(carried_out(h, seq![]) == Some(h));
}

// ---------------------------------------------------------------------------
// Rules
// ---------------------------------------------------------------------------

/// Traffic from the subnet that leaves for elsewhere than a project bridge gets
/// the host's address.
pub open spec fn masquerade(subnet: Ipv4Net) -> Seq<Seq<char>> {
    seq![
        "-t"@,
        "nat"@,
        seq![],
        "POSTROUTING"@,
        "-s"@,
        net_text(subnet),
        "!"@,
        "-o"@,
        "tbr-"@ + "+"@,
        "-j"@,
        "MASQUERADE"@,
    ]
}

/// Traffic from the subnet is let out.
pub open spec fn let_out(subnet: Ipv4Net) -> Seq<Seq<char>> {
    seq![seq![], "FORWARD"@, "-s"@, net_text(subnet), "-j"@, "ACCEPT"@]
}

/// Answers to the subnet are let in, and nothing else is.
pub open spec fn let_answers_in(subnet: Ipv4Net) -> Seq<Seq<char>> {
    seq![
        seq![],
        "FORWARD"@,
        "-d"@,
        net_text(subnet),
        "-m"@,
        "conntrack"@,
        "--ctstate"@,
        "RELATED,ESTABLISHED"@,
        "-j"@,
        "ACCEPT"@,
    ]
}

/// The rules of a project.
pub open spec fn rules_for(subnet: Ipv4Net) -> Set<Seq<Seq<char>>> {
    set![masquerade(subnet), let_out(subnet), let_answers_in(subnet)]
}

/// The rules that older versions set in place of the first.
pub open spec fn outdated(subnet: Ipv4Net, supernet: Ipv4Net) -> Set<Seq<Seq<char>>> {
    set![
        seq!["-t"@, "nat"@, seq![], "POSTROUTING"@, "-s"@, net_text(subnet), "-j"@, "MASQUERADE"@],
        seq![
            "-t"@,
            "nat"@,
            seq![],
            "POSTROUTING"@,
            "-s"@,
            net_text(subnet),
            "!"@,
            "-d"@,
            net_text(supernet),
            "-j"@,
            "MASQUERADE"@,
        ],
    ]
}

proof fn lemma_verbs()
    ensures
        "-t"@ != "-A"@,
        "-t"@ != "-C"@,
        "-t"@ != "-D"@,
        "-A"@ != "-C"@,
        "-A"@ != "-D"@,
        "-C"@ != "-D"@,
        "iptables"@ != "ip"@,
{
    reveal_strlit("-t");
    reveal_strlit("-A");
    reveal_strlit("-C");
    reveal_strlit("-D");
    reveal_strlit("iptables");
    reveal_strlit("ip");
    assert("-t"@[1] == 't');
    assert("-A"@[1] == 'A');
    assert("-C"@[1] == 'C');
    assert("-D"@[1] == 'D');
    assert("iptables"@.len() == 8);
    assert("ip"@.len() == 2);
}

/// The three rules, by verb.
proof fn lemma_wiring_rules(subnet: Ipv4Net, verb: Seq<char>)
    requires
        verb == "-A"@ || verb == "-C"@ || verb == "-D"@,
    ensures
        ({
            let w = host::wiring(net_text(subnet), verb);
            &&& w.len() == 3
            &&& rule_of(w[0]) == masquerade(subnet)
            &&& rule_of(w[1]) == let_out(subnet)
            &&& rule_of(w[2]) == let_answers_in(subnet)
            &&& forall|i: int| 0 <= i < 3 ==> (#[trigger] w[i])[verb_at(w[i])] == verb
            &&& forall|i: int|
                0 <= i < 3 ==> (#[trigger] host::iptables(w[i])).len() > 0 && host::iptables(
                    w[i],
                )[0] == "iptables"@ && host::iptables(w[i]).skip(1) == w[i]
        }),
{
    lemma_verbs();
    let w = host::wiring(net_text(subnet), verb);
    assert(rule_of(w[0]) =~= masquerade(subnet));
    assert(rule_of(w[1]) =~= let_out(subnet));
    assert(rule_of(w[2]) =~= let_answers_in(subnet));
    assert forall|i: int| 0 <= i < 3 implies (#[trigger] host::iptables(w[i])).len() > 0
        && host::iptables(w[i])[0] == "iptables"@ && host::iptables(w[i]).skip(1) == w[i] by {
        assert(host::iptables(w[i]).skip(1) =~= w[i]);
    }
}

/// Adding the rules puts them there and changes nothing else.
proof fn lemma_rules_added(h: HostView, subnet: Ipv4Net)
    ensures
        carried_out(h, host::add_rules(host::wiring(net_text(subnet), "-A"@))) == Some(
            HostView { rules: h.rules.union(rules_for(subnet)), ..h },
        ),
{
    let net = net_text(subnet);
    let w = host::wiring(net, "-A"@);
    let c = host::wiring(net, "-C"@);
    lemma_verbs();
    lemma_wiring_rules(subnet, "-A"@);
    lemma_wiring_rules(subnet, "-C"@);
    host::law_teardown_removes_what_setup_adds(subnet, 0, 0);
    host::law_teardown_removes_what_setup_adds(subnet, 1, 0);
    host::law_teardown_removes_what_setup_adds(subnet, 2, 0);
    let steps = host::add_rules(w);
    assert(steps =~= seq![
        host::ensure_rule(w[0]),
        host::ensure_rule(w[1]),
        host::ensure_rule(w[2]),
    ]);
    let h1 = HostView { rules: h.rules.insert(masquerade(subnet)), ..h };
    let h2 = HostView { rules: h1.rules.insert(let_out(subnet)), ..h1 };
    let h3 = HostView { rules: h2.rules.insert(let_answers_in(subnet)), ..h2 };
    lemma_rule_ensured(h, w[0], c[0]);
    lemma_rule_ensured(h1, w[1], c[1]);
    lemma_rule_ensured(h2, w[2], c[2]);
    assert(steps =~= seq![host::ensure_rule(w[0])] + seq![host::ensure_rule(w[1])] + seq![
        host::ensure_rule(w[2]),
    ]);
    lemma_one(h, host::ensure_rule(w[0]));
    lemma_one(h1, host::ensure_rule(w[1]));
    lemma_one(h2, host::ensure_rule(w[2]));
    lemma_carried_on(h, seq![host::ensure_rule(w[0])], seq![host::ensure_rule(w[1])]);
    lemma_carried_on(
        h,
        seq![host::ensure_rule(w[0])] + seq![host::ensure_rule(w[1])],
        seq![host::ensure_rule(w[2])],
    );
    assert(h3.rules =~= h.rules.union(rules_for(subnet)));
}

/// A rule that is ensured is there.
proof fn lemma_rule_ensured(h: HostView, add: Seq<Seq<char>>, check: Seq<Seq<char>>)
    requires
        host::as_check(add) == check,
        rule_of(add) == rule_of(check),
        add[verb_at(add)] == "-A"@,
        check[verb_at(check)] == "-C"@,
    ensures
        performed(h, host::ensure_rule(add)) == Some(
            HostView { rules: h.rules.insert(rule_of(add)), ..h },
        ),
{
    lemma_verbs();
    assert(host::iptables(add).skip(1) =~= add);
    assert(host::iptables(check).skip(1) =~= check);
    if h.rules.contains(rule_of(add)) {
        assert(h.rules.insert(rule_of(add)) =~= h.rules);
    }
}

/// A rule that is removed is gone.
proof fn lemma_rule_removed(h: HostView, args: Seq<Seq<char>>)
    requires
        args[verb_at(args)] == "-D"@,
    ensures
        carried_out(h, seq![StepView::TryRun { argv: host::iptables(args) }]) == Some(
            HostView { rules: h.rules.remove(rule_of(args)), ..h },
        ),
{
    lemma_verbs();
    lemma_one(h, StepView::TryRun { argv: host::iptables(args) });
    assert(host::iptables(args).skip(1) =~= args);
    if !h.rules.contains(rule_of(args)) {
        assert(h.rules.remove(rule_of(args)) =~= h.rules);
    }
}

/// Removing the rules of older versions leaves everything else.
proof fn lemma_outdated_removed(h: HostView, subnet: Ipv4Net, supernet: Ipv4Net)
    ensures
        carried_out(
            h,
            host::remove_rules(host::legacy_wiring(net_text(subnet), net_text(supernet))),
        ) == Some(HostView { rules: h.rules.difference(outdated(subnet, supernet)), ..h }),
{
    lemma_verbs();
    let w = host::legacy_wiring(net_text(subnet), net_text(supernet));
    let a = StepView::TryRun { argv: host::iptables(w[0]) };
    let b = StepView::TryRun { argv: host::iptables(w[1]) };
    assert(host::remove_rules(w) =~= seq![a] + seq![b]);
    lemma_rule_removed(h, w[0]);
    let h1 = HostView { rules: h.rules.remove(rule_of(w[0])), ..h };
    lemma_rule_removed(h1, w[1]);
    lemma_carried_on(h, seq![a], seq![b]);
    let first = seq![
        "-t"@,
        "nat"@,
        seq![],
        "POSTROUTING"@,
        "-s"@,
        net_text(subnet),
        "-j"@,
        "MASQUERADE"@,
    ];
    let second = seq![
        "-t"@,
        "nat"@,
        seq![],
        "POSTROUTING"@,
        "-s"@,
        net_text(subnet),
        "!"@,
        "-d"@,
        net_text(supernet),
        "-j"@,
        "MASQUERADE"@,
    ];
    assert(rule_of(w[0]) =~= first);
    assert(rule_of(w[1]) =~= second);
    assert(h1.rules.remove(rule_of(w[1])) =~= h.rules.difference(outdated(subnet, supernet)));
}

/// Removing the rules of a project leaves everything else.
proof fn lemma_rules_removed(h: HostView, subnet: Ipv4Net)
    ensures
        carried_out(h, host::remove_rules(host::wiring(net_text(subnet), "-D"@))) == Some(
            HostView { rules: h.rules.difference(rules_for(subnet)), ..h },
        ),
{
    lemma_verbs();
    let w = host::wiring(net_text(subnet), "-D"@);
    lemma_wiring_rules(subnet, "-D"@);
    let a = StepView::TryRun { argv: host::iptables(w[0]) };
    let b = StepView::TryRun { argv: host::iptables(w[1]) };
    let c = StepView::TryRun { argv: host::iptables(w[2]) };
    assert(host::remove_rules(w) =~= seq![a] + seq![b] + seq![c]);
    lemma_rule_removed(h, w[0]);
    let h1 = HostView { rules: h.rules.remove(rule_of(w[0])), ..h };
    lemma_rule_removed(h1, w[1]);
    let h2 = HostView { rules: h1.rules.remove(rule_of(w[1])), ..h1 };
    lemma_rule_removed(h2, w[2]);
    lemma_carried_on(h, seq![a], seq![b]);
    lemma_carried_on(h, seq![a] + seq![b], seq![c]);
    assert(h2.rules.remove(rule_of(w[2])) =~= h.rules.difference(rules_for(subnet)));
}

// ---------------------------------------------------------------------------
// Links
// ---------------------------------------------------------------------------

/// The words of the commands differ from one another.
proof fn lemma_words()
    ensures
        "link"@ != "tuntap"@,
        "link"@ != "addr"@,
        "add"@ != "set"@,
        "up"@ != "down"@,
        "iptables"@ != "ip"@,
{
    reveal_strlit("link");
    reveal_strlit("tuntap");
    reveal_strlit("addr");
    reveal_strlit("add");
    reveal_strlit("set");
    reveal_strlit("up");
    reveal_strlit("down");
    reveal_strlit("iptables");
    reveal_strlit("ip");
    assert("link"@[0] == 'l');
    assert("addr"@[0] == 'a');
    assert("tuntap"@.len() == 6);
    assert("link"@.len() == 4);
    assert("add"@[0] == 'a');
    assert("set"@[0] == 's');
    assert("up"@.len() == 2);
    assert("down"@.len() == 4);
    assert("iptables"@.len() == 8);
    assert("ip"@.len() == 2);
}

/// Setting a project up, on whatever host, succeeds and leaves the bridge
/// there, up, and holding the gateway's address with the subnet's prefix
/// length. The host forwards; the subnet's traffic is let out, and its answers
/// in; what leaves for elsewhere than a project bridge gets the host's address;
/// no rule of an older version is left. Nothing else has changed.
pub proof fn law_project_is_set_up(h: HostView, setup: ProjectSetup)
    ensures
        ({
            let after = carried_out(h, host::ensure_bridge_steps(setup));
            let bridge = setup.bridge@;
            &&& after is Some
            &&& after->0.links.contains_key(bridge)
            &&& after->0.links[bridge].up
            &&& after->0.links[bridge].address == Some(
                ip_text(setup.gateway) + "/"@ + text::decimal(setup.subnet.prefix as nat),
            )
            &&& after->0.forwarding
            &&& after->0.rules == h.rules.difference(outdated(setup.subnet, setup.supernet)).union(
                rules_for(setup.subnet),
            )
            &&& after->0.links.remove(bridge) == h.links.remove(bridge)
            &&& h.links.contains_key(bridge) ==> after->0.links[bridge].master
                == h.links[bridge].master
        }),
{
    lemma_words();
    let bridge = setup.bridge@;
    let steps = host::ensure_bridge_steps(setup);
    let a = StepView::RunUnlessLink {
        link: bridge,
        argv: seq!["ip"@, "link"@, "add"@, "name"@, bridge, "type"@, "bridge"@],
    };
    let b = StepView::Run {
        argv: seq!["ip"@, "addr"@, "replace"@, host::gateway_text(setup), "dev"@, bridge],
    };
    let c = StepView::Run { argv: seq!["ip"@, "link"@, "set"@, bridge, "up"@] };
    let d = StepView::EnableForwarding;
    let old_rules = host::remove_rules(
        host::legacy_wiring(net_text(setup.subnet), net_text(setup.supernet)),
    );
    let new_rules = host::add_rules(host::wiring(net_text(setup.subnet), "-A"@));
    let first = seq![a] + seq![b] + seq![c] + seq![d];
    assert(steps =~= first + old_rules + new_rules);
    lemma_one(h, a);
    let h1 = carried_out(h, seq![a])->0;
    lemma_one(h1, b);
    let h2 = carried_out(h1, seq![b])->0;
    lemma_one(h2, c);
    let h3 = carried_out(h2, seq![c])->0;
    lemma_one(h3, d);
    let h4 = carried_out(h3, seq![d])->0;
    lemma_carried_on(h, seq![a], seq![b]);
    lemma_carried_on(h, seq![a] + seq![b], seq![c]);
    lemma_carried_on(h, seq![a] + seq![b] + seq![c], seq![d]);
    assert(h1.links.contains_key(bridge));
    assert(carried_out(h, first) == Some(h4));
    lemma_outdated_removed(h4, setup.subnet, setup.supernet);
    let h5 = carried_out(h4, old_rules)->0;
    lemma_carried_on(h, first, old_rules);
    lemma_rules_added(h5, setup.subnet);
    lemma_carried_on(h, first + old_rules, new_rules);
    assert(h4.links.remove(bridge) =~= h.links.remove(bridge));
}

/// Setting a TAP up on a bridge that is there succeeds and leaves the TAP
/// there, up, and on the bridge. Nothing else has changed.
pub proof fn law_tap_is_set_up(h: HostView, tap: Seq<char>, bridge: Seq<char>)
    requires
        h.links.contains_key(bridge),
    ensures
        ({
            let after = carried_out(h, host::ensure_tap_steps(tap, bridge));
            &&& after is Some
            &&& after->0.links.contains_key(tap)
            &&& after->0.links[tap].up
            &&& after->0.links[tap].master == Some(bridge)
            &&& after->0.links.remove(tap) == h.links.remove(tap)
            &&& after->0.rules == h.rules
            &&& after->0.forwarding == h.forwarding
        }),
{
    lemma_words();
    let a = StepView::RunUnlessLink {
        link: tap,
        argv: seq!["ip"@, "tuntap"@, "add"@, "dev"@, tap, "mode"@, "tap"@],
    };
    let b = StepView::Run {
        argv: seq!["ip"@, "link"@, "set"@, tap, "master"@, bridge, "up"@],
    };
    assert(host::ensure_tap_steps(tap, bridge) =~= seq![a] + seq![b]);
    lemma_one(h, a);
    let h1 = carried_out(h, seq![a])->0;
    lemma_one(h1, b);
    lemma_carried_on(h, seq![a], seq![b]);
    let after = carried_out(h1, seq![b])->0;
    assert(after.links.remove(tap) =~= h.links.remove(tap));
}

/// Deleting a TAP succeeds and leaves it gone, whether or not it was there.
/// Nothing else has changed.
pub proof fn law_tap_is_deleted(h: HostView, tap: Seq<char>)
    ensures
        carried_out(h, host::delete_tap_steps(tap)) == Some(
            HostView { links: h.links.remove(tap), ..h },
        ),
{
    lemma_words();
    let argvs = seq![seq!["ip"@, "link"@, "del"@, tap]];
    let step = StepView::RunIfLink { link: tap, argvs };
    assert(host::delete_tap_steps(tap) =~= seq![step]);
    lemma_one(h, step);
    assert(argvs.drop_last() =~= seq![]);
    assert(ran_all(h, argvs.drop_last()) == Some(h));
    if !h.links.contains_key(tap) {
        assert(h.links.remove(tap) =~= h.links);
    }
}

/// Tearing a project down succeeds and leaves neither its bridge nor any of its
/// rules, of whatever version. Nothing else has changed.
pub proof fn law_project_is_torn_down(h: HostView, setup: ProjectSetup)
    ensures
        carried_out(h, host::delete_bridge_steps(setup)) == Some(
            HostView {
                links: h.links.remove(setup.bridge@),
                rules: h.rules.difference(rules_for(setup.subnet)).difference(
                    outdated(setup.subnet, setup.supernet),
                ),
                ..h
            },
        ),
{
    lemma_words();
    let bridge = setup.bridge@;
    let down = seq!["ip"@, "link"@, "set"@, bridge, "down"@];
    let del = seq!["ip"@, "link"@, "del"@, bridge];
    let argvs = seq![down, del];
    let step = StepView::RunIfLink { link: bridge, argvs };
    let own = host::remove_rules(host::wiring(net_text(setup.subnet), "-D"@));
    let old_rules = host::remove_rules(
        host::legacy_wiring(net_text(setup.subnet), net_text(setup.supernet)),
    );
    assert(host::delete_bridge_steps(setup) =~= own + old_rules + seq![step]);
    lemma_rules_removed(h, setup.subnet);
    let h1 = carried_out(h, own)->0;
    lemma_outdated_removed(h1, setup.subnet, setup.supernet);
    let h2 = carried_out(h1, old_rules)->0;
    lemma_carried_on(h, own, old_rules);
    lemma_one(h2, step);
    lemma_carried_on(h, own + old_rules, seq![step]);
    assert(argvs.drop_last() =~= seq![down]);
    assert(seq![down].drop_last() =~= seq![]);
    assert(ran_all(h2, seq![]) == Some(h2));
    assert(ran_all(h2, seq![down]) == ran(h2, down));
    if h2.links.contains_key(bridge) {
        let h3 = ran(h2, down)->0;
        assert(ran(h3, del) == Some(HostView { links: h3.links.remove(bridge), ..h3 }));
        assert(h3.links.remove(bridge) =~= h.links.remove(bridge));
    } else {
        assert(h2.links.remove(bridge) =~= h2.links);
    }
}

/// Setting an allocation up succeeds and leaves the VM's TAP up on its project's
/// bridge; for the first VM of a project that bridge is up, too, and has the
/// gateway's address.
pub proof fn law_allocation_is_set_up(h: HostView, plan: AllocPlan)
    requires
        plan.setup is Some ==> plan.setup->0.bridge@ == plan.bridge@,
        plan.setup is None ==> h.links.contains_key(plan.bridge@),
        plan.vm_net.tap_name.0@ != plan.bridge@,
    ensures
        ({
            let after = carried_out(h, setup_steps(plan));
            let tap = plan.vm_net.tap_name.0@;
            &&& after is Some
            &&& after->0.links.contains_key(tap)
            &&& after->0.links[tap].up
            &&& after->0.links[tap].master == Some(plan.bridge@)
            &&& after->0.links.contains_key(plan.bridge@)
            &&& match plan.setup {
                Some(setup) => after->0.links[plan.bridge@].up
                    && after->0.links[plan.bridge@].address == Some(
                    ip_text(setup.gateway) + "/"@ + text::decimal(setup.subnet.prefix as nat),
                ) && rules_for(setup.subnet).subset_of(after->0.rules) && after->0.forwarding,
                None => after->0.links[plan.bridge@] == h.links[plan.bridge@] && after->0.rules
                    == h.rules,
            }
        }),
{
    let tap = plan.vm_net.tap_name.0@;
    let tap_steps = host::ensure_tap_steps(tap, plan.bridge@);
    match plan.setup {
        Some(setup) => {
            law_project_is_set_up(h, setup);
            let h1 = carried_out(h, host::ensure_bridge_steps(setup))->0;
            law_tap_is_set_up(h1, tap, plan.bridge@);
            lemma_carried_on(h, host::ensure_bridge_steps(setup), tap_steps);
            let h2 = carried_out(h1, tap_steps)->0;
            assert(h2.links.remove(tap).contains_key(plan.bridge@)
                == h1.links.remove(tap).contains_key(plan.bridge@));
            assert(h2.links.remove(tap)[plan.bridge@] == h1.links.remove(tap)[plan.bridge@]);
        },
        None => {
            law_tap_is_set_up(h, tap, plan.bridge@);
            let h2 = carried_out(h, tap_steps)->0;
            assert(h2.links.remove(tap).contains_key(plan.bridge@)
                == h.links.remove(tap).contains_key(plan.bridge@));
            assert(h2.links.remove(tap)[plan.bridge@] == h.links.remove(tap)[plan.bridge@]);
        },
    }
}

/// Undoing an allocation, whatever of it was set up, leaves the VM's TAP gone,
/// and the bridge and its rules exactly if the project was being set up.
pub proof fn law_allocation_is_undone(h: HostView, plan: AllocPlan)
    ensures
        carried_out(h, undo_steps(plan)) == Some(
            match plan.setup {
                Some(setup) => HostView {
                    links: h.links.remove(plan.vm_net.tap_name.0@).remove(setup.bridge@),
                    rules: h.rules.difference(rules_for(setup.subnet)).difference(
                        outdated(setup.subnet, setup.supernet),
                    ),
                    ..h
                },
                None => HostView { links: h.links.remove(plan.vm_net.tap_name.0@), ..h },
            },
        ),
{
    let tap = plan.vm_net.tap_name.0@;
    law_tap_is_deleted(h, tap);
    if let Some(setup) = plan.setup {
        let h1 = HostView { links: h.links.remove(tap), ..h };
        law_project_is_torn_down(h1, setup);
        lemma_carried_on(h, host::delete_tap_steps(tap), host::delete_bridge_steps(setup));
    }
}

/// Releasing an allocation leaves the VM's TAP gone, and the bridge and its
/// rules exactly if this was the project's last VM.
pub proof fn law_release_is_carried_out(h: HostView, plan: ReleasePlan)
    ensures
        carried_out(h, teardown_steps(plan)) == Some(
            match plan.teardown {
                Some(setup) => HostView {
                    links: h.links.remove(plan.tap.0@).remove(setup.bridge@),
                    rules: h.rules.difference(rules_for(setup.subnet)).difference(
                        outdated(setup.subnet, setup.supernet),
                    ),
                    ..h
                },
                None => HostView { links: h.links.remove(plan.tap.0@), ..h },
            },
        ),
{
    let tap = plan.tap.0@;
    law_tap_is_deleted(h, tap);
    if let Some(setup) = plan.teardown {
        let h1 = HostView { links: h.links.remove(tap), ..h };
        law_project_is_torn_down(h1, setup);
        lemma_carried_on(h, host::delete_tap_steps(tap), host::delete_bridge_steps(setup));
    }
}

/// The host without the TAPs of the given leases.
pub open spec fn without_taps(
    h: HostView,
    leases: Seq<(crate::net::cidr::Ipv4Addr, Seq<char>)>,
) -> HostView
    decreases leases.len(),
{
    if leases.len() == 0 {
        h
    } else {
        let rest = without_taps(h, leases.drop_last());
        HostView { links: rest.links.remove(tap_for(leases.last().1)), ..rest }
    }
}

/// Deleting the TAPs of leases succeeds, and of what was there exactly those are
/// gone.
proof fn lemma_taps_deleted(h: HostView, leases: Seq<(crate::net::cidr::Ipv4Addr, Seq<char>)>)
    ensures
        carried_out(h, tap_deletions(leases)) == Some(without_taps(h, leases)),
        without_taps(h, leases).rules == h.rules,
        without_taps(h, leases).links.submap_of(h.links),
        forall|i: int|
            0 <= i < leases.len() ==> !without_taps(h, leases).links.contains_key(
                tap_for((#[trigger] leases[i]).1),
            ),
    decreases leases.len(),
{
    if leases.len() > 0 {
        let rest = leases.drop_last();
        lemma_taps_deleted(h, rest);
        let m = without_taps(h, rest);
        law_tap_is_deleted(m, tap_for(leases.last().1));
        lemma_carried_on(h, tap_deletions(rest), host::delete_tap_steps(tap_for(leases.last().1)));
        assert forall|i: int| 0 <= i < leases.len() implies !without_taps(
            h,
            leases,
        ).links.contains_key(tap_for((#[trigger] leases[i]).1)) by {
            if i < rest.len() {
                assert(leases[i] == rest[i]);
            }
        }
    }
}

/// Deleting a project's bridge is deleting that of its setup.
proof fn lemma_bridge_deleted(h: HostView, p: ProjectView, supernet: Ipv4Net, prefix: u8)
    ensures
        ({
            let subnet = supernet.part(p.subnet_index as int, prefix);
            carried_out(h, bridge_deletion(p, supernet, prefix)) == Some(
                HostView {
                    links: h.links.remove(p.bridge),
                    rules: h.rules.difference(rules_for(subnet)).difference(
                        outdated(subnet, supernet),
                    ),
                    ..h
                },
            )
        }),
{
    lemma_words();
    let subnet = supernet.part(p.subnet_index as int, prefix);
    let down = seq!["ip"@, "link"@, "set"@, p.bridge, "down"@];
    let del = seq!["ip"@, "link"@, "del"@, p.bridge];
    let argvs = seq![down, del];
    let step = StepView::RunIfLink { link: p.bridge, argvs };
    let own = host::remove_rules(host::wiring(net_text(subnet), "-D"@));
    let old_rules = host::remove_rules(
        host::legacy_wiring(net_text(subnet), net_text(supernet)),
    );
    assert(bridge_deletion(p, supernet, prefix) =~= own + old_rules + seq![step]);
    lemma_rules_removed(h, subnet);
    let h1 = carried_out(h, own)->0;
    lemma_outdated_removed(h1, subnet, supernet);
    let h2 = carried_out(h1, old_rules)->0;
    lemma_carried_on(h, own, old_rules);
    lemma_one(h2, step);
    lemma_carried_on(h, own + old_rules, seq![step]);
    lemma_link_taken_down(h2, p.bridge);
}

/// Taking a link down and deleting it leaves it gone.
proof fn lemma_link_taken_down(h: HostView, link: Seq<char>)
    ensures
        performed(
            h,
            StepView::RunIfLink {
                link,
                argvs: seq![
                    seq!["ip"@, "link"@, "set"@, link, "down"@],
                    seq!["ip"@, "link"@, "del"@, link],
                ],
            },
        ) == Some(HostView { links: h.links.remove(link), ..h }),
{
    lemma_words();
    let down = seq!["ip"@, "link"@, "set"@, link, "down"@];
    let del = seq!["ip"@, "link"@, "del"@, link];
    let argvs = seq![down, del];
    assert(argvs.drop_last() =~= seq![down]);
    assert(seq![down].drop_last() =~= seq![]);
    assert(ran_all(h, seq![]) == Some(h));
    assert(ran_all(h, seq![down]) == ran(h, down));
    if h.links.contains_key(link) {
        let h1 = ran(h, down)->0;
        assert(ran(h1, del) == Some(HostView { links: h1.links.remove(link), ..h1 }));
        assert(h1.links.remove(link) =~= h.links.remove(link));
    } else {
        assert(h.links.remove(link) =~= h.links);
    }
}

/// Reconciling at startup succeeds and leaves nothing of any project behind:
/// neither its bridge, nor the TAP of any of its VMs, nor any of its rules.
/// Nothing that was not there has come.
pub proof fn law_reconciling_leaves_nothing(
    h: HostView,
    projects: Seq<ProjectView>,
    supernet: Ipv4Net,
    prefix: u8,
)
    ensures
        ({
            let after = carried_out(h, reconcile_steps(projects, supernet, prefix));
            &&& after is Some
            &&& after->0.links.submap_of(h.links)
            &&& after->0.rules.subset_of(h.rules)
            &&& after->0.forwarding == h.forwarding
            &&& forall|k: int|
                0 <= k < projects.len() ==> !after->0.links.contains_key(
                    (#[trigger] projects[k]).bridge,
                )
            &&& forall|k: int, i: int|
                0 <= k < projects.len() && 0 <= i < projects[k].leases.len()
                    ==> !after->0.links.contains_key(
                    tap_for((#[trigger] projects[k].leases[i]).1),
                )
            &&& forall|k: int, rule: Seq<Seq<char>>|
                0 <= k < projects.len() && #[trigger] rules_for(
                    supernet.part(projects[k].subnet_index as int, prefix),
                ).contains(rule) ==> !after->0.rules.contains(rule)
        }),
    decreases projects.len(),
{
    if projects.len() > 0 {
        let rest = projects.drop_last();
        let p = projects.last();
        law_reconciling_leaves_nothing(h, rest, supernet, prefix);
        let first = reconcile_steps(rest, supernet, prefix);
        let h1 = carried_out(h, first)->0;
        lemma_taps_deleted(h1, p.leases);
        let h2 = without_taps(h1, p.leases);
        lemma_forwarding_kept(h1, p.leases);
        lemma_carried_on(h, first, tap_deletions(p.leases));
        lemma_bridge_deleted(h2, p, supernet, prefix);
        lemma_carried_on(
            h,
            first + tap_deletions(p.leases),
            bridge_deletion(p, supernet, prefix),
        );
        let h3 = carried_out(h2, bridge_deletion(p, supernet, prefix))->0;
        lemma_fewer_links(h3.links, h2.links, h1.links);
        lemma_fewer_links(h3.links, h1.links, h.links);
        assert(h3.rules.subset_of(h1.rules));
        assert(reconcile_steps(projects, supernet, prefix) == first + tap_deletions(p.leases)
            + bridge_deletion(p, supernet, prefix));
        assert(carried_out(h, reconcile_steps(projects, supernet, prefix)) == Some(h3));
        assert forall|k: int| 0 <= k < projects.len() implies !h3.links.contains_key(
            (#[trigger] projects[k]).bridge,
        ) by {
            if k < rest.len() {
                assert(projects[k] == rest[k]);
            }
        }
        assert forall|k: int, i: int|
            0 <= k < projects.len() && 0 <= i < projects[k].leases.len() implies
            !h3.links.contains_key(tap_for((#[trigger] projects[k].leases[i]).1)) by {
            if k < rest.len() {
                assert(projects[k] == rest[k]);
                assert(!h1.links.contains_key(tap_for(rest[k].leases[i].1)));
            } else {
                assert(!h2.links.contains_key(tap_for(p.leases[i].1)));
            }
        }
        assert forall|k: int, rule: Seq<Seq<char>>|
            0 <= k < projects.len() && #[trigger] rules_for(
                supernet.part(projects[k].subnet_index as int, prefix),
            ).contains(rule) implies !h3.rules.contains(rule) by {
            if k < rest.len() {
                assert(projects[k] == rest[k]);
                assert(rules_for(supernet.part(rest[k].subnet_index as int, prefix)).contains(
                    rule,
                ));
            }
        }
    }
}

/// What is part of a part is part of the whole.
proof fn lemma_fewer_links(
    a: Map<Seq<char>, LinkView>,
    b: Map<Seq<char>, LinkView>,
    c: Map<Seq<char>, LinkView>,
)
    requires
        a.submap_of(b),
        b.submap_of(c),
    ensures
        a.submap_of(c),
{
    assert forall|k: Seq<char>| #[trigger] a.dom().contains(k) implies c.dom().contains(k) && a[k]
        == c[k] by {
        assert(b.dom().contains(k));
        assert(a[k] == b[k]);
        assert(c.dom().contains(k));
        assert(b[k] == c[k]);
    }
}

proof fn lemma_forwarding_kept(h: HostView, leases: Seq<(crate::net::cidr::Ipv4Addr, Seq<char>)>)
    ensures
        without_taps(h, leases).forwarding == h.forwarding,
    decreases leases.len(),
{
    if leases.len() > 0 {
        lemma_forwarding_kept(h, leases.drop_last());
    }
}

// ---------------------------------------------------------------------------
// What commands print
// ---------------------------------------------------------------------------

/// Whether `pat` stands nowhere in `s`, nor at its end where `more` follows.
pub open spec fn nowhere_before(s: Seq<char>, more: Seq<char>, pat: Seq<char>) -> bool {
    forall|i: int| 0 <= i < s.len() ==> !text::has_prefix((#[trigger] s.skip(i)) + more, pat)
}

/// What stands nowhere before is found where it stands.
proof fn lemma_found_at(s: Seq<char>, more: Seq<char>, pat: Seq<char>)
    requires
        nowhere_before(s, more, pat),
        text::has_prefix(more, pat),
    ensures
        text::find_text(s + more, pat) == Some(s.len()),
    decreases s.len(),
{
    if s.len() == 0 {
        assert(s + more =~= more);
    } else {
        assert(s.skip(0) =~= s);
        assert(!text::has_prefix(s + more, pat));
        let rest = s.drop_first();
        assert forall|i: int| 0 <= i < rest.len() implies !text::has_prefix(
            (#[trigger] rest.skip(i)) + more,
            pat,
        ) by {
            assert(rest.skip(i) =~= s.skip(i + 1));
        }
        lemma_found_at(rest, more, pat);
        assert((s + more).drop_first() =~= rest + more);
    }
}

/// The name of a link is what a line of the listing has between its number and
/// its flags, without the device that it hangs on.
pub proof fn law_link_name_is_found(
    number: Seq<char>,
    name: Seq<char>,
    device: Seq<char>,
    flags: Seq<char>,
)
    requires
        forall|i: int| 0 <= i < number.len() ==> #[trigger] number[i] != ':',
        forall|i: int| 0 <= i < name.len() ==> #[trigger] name[i] != ':' && name[i] != '@',
        forall|i: int| 0 <= i < device.len() ==> #[trigger] device[i] != ':',
        device.len() > 0 ==> device[0] == '@',
    ensures
        host::link_name(number + ": "@ + name + device + ": "@ + flags) == Some(name),
{
    reveal_strlit(": ");
    let line = number + ": "@ + name + device + ": "@ + flags;
    let tail = ": "@ + name + device + ": "@ + flags;
    assert(line =~= number + tail);
    assert(tail.take(2) =~= ": "@);
    assert forall|i: int| 0 <= i < number.len() implies !text::has_prefix(
        (#[trigger] number.skip(i)) + tail,
        ": "@,
    ) by {
        let s = number.skip(i) + tail;
        assert(s[0] == number[i]);
        if text::has_prefix(s, ": "@) {
            assert(s.take(2)[0] == s[0]);
        }
    }
    lemma_found_at(number, tail, ": "@);
    let rest = line.skip(number.len() as int + 2);
    let part = name + device;
    let end = ": "@ + flags;
    assert(rest =~= part + end);
    assert(end.take(2) =~= ": "@);
    assert forall|i: int| 0 <= i < part.len() implies !text::has_prefix(
        (#[trigger] part.skip(i)) + end,
        ": "@,
    ) by {
        let s = part.skip(i) + end;
        assert(s[0] == part[i]);
        if i < name.len() {
            assert(part[i] == name[i]);
        } else {
            assert(part[i] == device[i - name.len()]);
        }
        if text::has_prefix(s, ": "@) {
            assert(s.take(2)[0] == s[0]);
        }
    }
    lemma_found_at(part, end, ": "@);
    assert(rest.take(part.len() as int) =~= part);
    if device.len() > 0 {
        assert(part[name.len() as int] == '@');
        assert forall|j: int| 0 <= j < name.len() implies part[j] != '@' by {
            assert(part[j] == name[j]);
        }
        text::lemma_char_index_at(part, '@', name.len() as int);
    } else {
        assert(part =~= name);
        text::lemma_char_index(part, '@');
    }
    assert(part.take(name.len() as int) =~= name);
}

/// Of the bridges of a host exactly those that are called like a project's are
/// taken for leftovers.
pub proof fn law_only_project_bridges_are_strays(lines: Seq<Seq<char>>, name: Seq<char>)
    ensures
        host::bridges_in(lines).contains(name) <==> text::has_prefix(name, "tbr-"@) && exists|i: int|
            0 <= i < lines.len() && host::link_name(#[trigger] lines[i]) == Some(name),
    decreases lines.len(),
{
    if lines.len() > 0 {
        let rest = lines.drop_last();
        law_only_project_bridges_are_strays(rest, name);
        assert(forall|i: int| 0 <= i < rest.len() ==> rest[i] == #[trigger] lines[i]);
        assert(lines[lines.len() - 1] == lines.last());
        if let Some(last) = host::link_name(lines.last()) {
            vstd::seq_lib::lemma_seq_contains_after_push(host::bridges_in(rest), last, name);
        }
    }
}

} // verus!

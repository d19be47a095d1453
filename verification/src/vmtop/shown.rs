//! What the lines of the dashboard say of a VM.

use vstd::prelude::*;

use crate::text;
use crate::vmm::state::{state_name, VmState};
use crate::vmm::talk::stands_in;
use crate::vmm::vm::VmMode;
use crate::vmtop::app::{error_text, Error};
use crate::vmtop::format::{duration_label, elapsed_secs, gib_label, rounded, size_label};
use crate::vmtop::laws::occurrences;
use crate::vmtop::listing::{
    heads, laid_out, member_states, project_ids, projects_shown, states_of, Group, RowId, Tally,
};
use crate::vmtop::model::{state_label, Vm};
use crate::vmtop::ui::{
    blanks, cells_from, color_of, colored, count_parts, cut, detail_parts, dimmed, fields_of,
    header_text, headings_from, labels, less, list_head, list_of, mode_label, padded, port_texts, row_spans,
    selected_among, summary_text, tail, width_of, Color,
};
use crate::vmtop::view::{cpus_of, memory_of, projects_in, row_vm_id, VmView};

verus! {

// ---------------------------------------------------------------------------
// Sizes and durations
// ---------------------------------------------------------------------------

/// Whole GiB are labelled as such, what is below one in MiB.
pub proof fn law_sizes_are_labelled(gib: nat, mib: nat)
    ensures
        gib_label(1024 * gib) == text::decimal(gib) + ".0G"@,
        gib > 0 ==> size_label(1024 * gib) == text::decimal(gib) + ".0G"@,
        mib < 1024 ==> size_label(mib) == text::decimal(mib) + "M"@,
        mib >= 1024 ==> size_label(mib) == gib_label(mib),
{
    reveal_strlit(".");
    reveal_strlit("G");
    reveal_strlit(".0G");
    assert(rounded(1024 * gib * 10, 1024) == gib * 10);
    assert(text::decimal(0) == seq!['0']);
    assert(gib_label(1024 * gib) =~= text::decimal(gib) + ".0G"@);
}

/// A duration is labelled by its two largest units from hours on, and by one
/// below; nothing counts as none that lies in the future.
pub proof fn law_durations_are_labelled(days: nat, hours: nat, mins: nat, secs: nat)
    requires
        hours < 24,
        mins < 60,
        secs < 60,
    ensures
        ({
            let label = duration_label((days * 86400 + hours * 3600 + mins * 60 + secs) as int);
            &&& days > 0 ==> label == text::decimal(days) + "d"@ + text::decimal(hours) + "h"@
            &&& days == 0 && hours > 0 && mins >= 10 ==> label == text::decimal(hours) + "h"@
                + text::decimal(mins) + "m"@
            &&& days == 0 && hours > 0 && mins < 10 ==> label == text::decimal(hours) + "h"@ + (
            "0"@ + text::decimal(mins)) + "m"@
            &&& days == 0 && hours == 0 && mins > 0 ==> label == text::decimal(mins) + "m"@
            &&& days == 0 && hours == 0 && mins == 0 ==> label == text::decimal(secs) + "s"@
        }),
        forall|past: int| past < 0 ==> #[trigger] duration_label(past) == text::decimal(0) + "s"@,
{
    let total = (days * 86400 + hours * 3600 + mins * 60 + secs) as int;
    assert(total / 86400 == days);
    assert(total % 86400 == hours * 3600 + mins * 60 + secs);
    assert((total % 86400) / 3600 == hours);
    assert(total % 3600 == mins * 60 + secs);
    assert((total % 3600) / 60 == mins);
    assert(total % 60 == secs);
}

/// Whole seconds are counted between two times, and none backwards.
pub proof fn law_seconds_are_counted(then_ns: i64, secs: int, rest: int, now_ns: i64)
    requires
        secs >= 0,
        0 <= rest < 1_000_000_000,
        now_ns == then_ns + secs * 1_000_000_000 + rest,
    ensures
        elapsed_secs(now_ns, then_ns) == secs,
        now_ns > then_ns ==> elapsed_secs(then_ns, now_ns) == 0,
{
    assert((secs * 1_000_000_000 + rest) / 1_000_000_000 == secs);
}

// ---------------------------------------------------------------------------
// Names
// ---------------------------------------------------------------------------

/// A state is shown by its name in lower case.
pub proof fn law_states_are_shown_by_name(s: VmState)
    ensures
        state_label(s).len() == state_name(s).len(),
        state_label(s).len() > 0,
        state_label(s)[0] as u32 == state_name(s)[0] as u32 + 32,
        state_label(s).skip(1) == state_name(s).skip(1),
{
    reveal_strlit("creating");
    reveal_strlit("starting");
    reveal_strlit("pausing");
    reveal_strlit("resuming");
    reveal_strlit("suspending");
    reveal_strlit("restoring");
    reveal_strlit("destroying");
    reveal_strlit("created");
    reveal_strlit("started");
    reveal_strlit("paused");
    reveal_strlit("suspended");
    reveal_strlit("destroyed");
    reveal_strlit("Creating");
    reveal_strlit("Starting");
    reveal_strlit("Pausing");
    reveal_strlit("Resuming");
    reveal_strlit("Suspending");
    reveal_strlit("Restoring");
    reveal_strlit("Destroying");
    reveal_strlit("Created");
    reveal_strlit("Started");
    reveal_strlit("Paused");
    reveal_strlit("Suspended");
    reveal_strlit("Destroyed");
    assert(state_label(s).skip(1) =~= state_name(s).skip(1));
}

/// The states that a VM rests in, and being on the move, are told apart by
/// color.
pub proof fn law_colors_tell_states_apart(a: VmState, b: VmState)
    ensures
        crate::vmm::state::stable(a) && a != b ==> color_of(a) != color_of(b),
        color_of(VmState::Started) == Color::Green,
{
}

/// The modes are told apart by their short names.
pub proof fn law_modes_are_told_apart(a: VmMode, b: VmMode)
    ensures
        a != b ==> mode_label(a) != mode_label(b),
{
    reveal_strlit("eph");
    reveal_strlit("perm");
    reveal_strlit("sched");
    assert("eph"@.len() == 3);
    assert("perm"@.len() == 4);
    assert("sched"@.len() == 5);
}

// ---------------------------------------------------------------------------
// Columns
// ---------------------------------------------------------------------------

/// Cutting keeps the beginning and padding adds blanks: together they make a
/// text as wide as is asked.
pub proof fn law_columns_have_their_width(s: Seq<char>, n: nat)
    ensures
        padded(cut(s, n), n).len() == n,
        cut(s, n).len() <= n,
        text::has_prefix(s, cut(s, n)),
        s.len() <= n ==> cut(s, n) == s && text::has_prefix(padded(s, n), s),
        forall|i: int| s.len() <= i < padded(s, n).len() ==> #[trigger] padded(s, n)[i] == ' ',
{
    if s.len() <= n {
        assert(padded(s, n).take(s.len() as int) =~= s);
        assert(cut(s, n) =~= s);
    }
    assert(s.take(cut(s, n).len() as int) =~= cut(s, n));
    assert(blanks(n - s.len()).len() == if n > s.len() {
        n - s.len()
    } else {
        0
    });
}

/// A name that is too long keeps its end, which tells VMs apart, and is marked.
pub proof fn law_long_names_keep_their_end(s: Seq<char>, n: nat)
    ensures
        s.len() <= n ==> tail(s, n) == s,
        s.len() > n ==> tail(s, n).len() == n,
        s.len() > n && n >= 4 ==> tail(s, n).skip(2) == s.skip(s.len() - n + 2) && tail(s, n)[0]
            == '.' && tail(s, n)[1] == '.',
        s.len() > n && n < 4 ==> tail(s, n) == s.skip(s.len() - n),
{
    reveal_strlit("..");
    if s.len() > n && n >= 4 {
        assert(tail(s, n).skip(2) =~= s.skip(s.len() - n + 2));
    }
}

/// Each column holds what its heading says.
pub proof fn law_columns_hold_what_headings_say(vm: Vm, now_ns: i64)
    ensures
        ({
            let f = fields_of(vm, now_ns);
            let c = vm.vm_config;
            let ports = c.network_config.exposed_ports@;
            &&& f.len() == labels().len()
            &&& port_texts(vm).len() == ports.len()
            &&& forall|k: int|
                0 <= k < ports.len() ==> #[trigger] port_texts(vm)[k] == text::decimal(
                    ports[k].port as nat,
                )
            &&& forall|i: int| #![trigger labels()[i]]
                0 <= i < 12 ==> {
                    &&& labels()[i] == "VM ID"@ ==> f[i] == tail(vm.vm_id@, 26)
                    &&& labels()[i] == "NAME"@ ==> f[i] == cut(c.name@, 20)
                    &&& labels()[i] == "IP"@ ==> f[i] == (if vm.net is Some {
                        vm.net->0.guest_ip@
                    } else {
                        seq![]
                    })
                    &&& labels()[i] == "SUBNET"@ ==> f[i] == (if vm.net is Some {
                        vm.net->0.subnet@
                    } else {
                        seq![]
                    })
                    &&& labels()[i] == "IMAGE"@ ==> f[i] == cut(c.image@, 10)
                    &&& labels()[i] == "CPU"@ ==> f[i] == text::decimal(c.cpus as nat)
                    &&& labels()[i] == "MEM"@ ==> f[i] == size_label(c.memory_mb as nat)
                    &&& labels()[i] == "DISK"@ ==> f[i] == size_label(c.disk_size_mb as nat)
                    &&& labels()[i] == "MODE"@ ==> f[i] == mode_label(c.mode)
                    &&& labels()[i] == "PORTS"@ ==> f[i] == text::joined(port_texts(vm), ","@)
                    &&& labels()[i] == "TAGS"@ ==> f[i] == text::joined(
                        text::views(c.tags@),
                        ","@,
                    )
                    &&& labels()[i] == "UPTIME"@ ==> f[i] == duration_label(
                        elapsed_secs(now_ns, vm.created_at),
                    )
                }
        }),
{
    reveal_strlit("VM ID");
    reveal_strlit("NAME");
    reveal_strlit("IP");
    reveal_strlit("SUBNET");
    reveal_strlit("IMAGE");
    reveal_strlit("CPU");
    reveal_strlit("MEM");
    reveal_strlit("DISK");
    reveal_strlit("MODE");
    reveal_strlit("PORTS");
    reveal_strlit("TAGS");
    reveal_strlit("UPTIME");
    let l = labels();
    assert(l[0].len() == 5 && l[0][0] == 'V');
    assert(l[1].len() == 4 && l[1][0] == 'N');
    assert(l[2].len() == 2);
    assert(l[3].len() == 6 && l[3][0] == 'S');
    assert(l[4].len() == 5 && l[4][0] == 'I');
    assert(l[5].len() == 3 && l[5][0] == 'C');
    assert(l[6].len() == 3 && l[6][0] == 'M');
    assert(l[7].len() == 4 && l[7][0] == 'D');
    assert(l[8].len() == 4 && l[8][0] == 'M');
    assert(l[9].len() == 5 && l[9][0] == 'P');
    assert(l[10].len() == 4 && l[10][0] == 'T');
    assert(l[11].len() == 6 && l[11][0] == 'U');
}

/// A row begins with the VM's state in its color, and is marked all along
/// exactly if the VM is selected.
pub proof fn law_selected_row_is_marked(
    vm: Vm,
    now_ns: i64,
    flat: bool,
    width: nat,
    selected: bool,
    k: int,
)
    requires
        0 <= k < row_spans(vm, now_ns, flat, width, selected).len(),
    ensures
        ({
            let spans = row_spans(vm, now_ns, flat, width, selected);
            &&& spans[k].1.reversed == selected
            &&& spans[k].1.bold == selected
            &&& k == 0 ==> spans[k].1.color == Some(color_of(vm.state)) && spans[k].0 == padded(
                cut(state_label(vm.state), 10),
                10,
            )
            &&& k > 0 ==> spans[k].1.color is None
            &&& flat ==> spans.len() == 3 && spans[1].0 == padded(
                cut(text::decimal(vm.vm_config.project_id as nat), 7),
                7,
            )
            &&& !flat ==> spans.len() == 2
        }),
{
}

// ---------------------------------------------------------------------------
// Headers and details
// ---------------------------------------------------------------------------

/// A header names its project, and its subnet if it has one.
pub proof fn law_header_names_its_project(
    project_id: u64,
    c: Tally,
    subnet: Option<Seq<char>>,
)
    ensures
        ({
            let h = header_text(project_id, c, subnet);
            &&& text::has_prefix(h, "project "@ + text::decimal(project_id as nat))
            &&& subnet is Some ==> h.skip(
                h.len() - ("   subnet "@ + subnet->0).len(),
            ) == "   subnet "@ + subnet->0
        }),
{
    let h = header_text(project_id, c, subnet);
    let id = "project "@ + text::decimal(project_id as nat);
    assert(h.take(id.len() as int) =~= id);
    if subnet is Some {
        let net = "   subnet "@ + subnet->0;
        assert(h.skip(h.len() - net.len()) =~= net);
    }
}

/// A header counts what there is to count, each kind of state once, and leaves
/// out what there is none of.
pub proof fn law_header_counts_what_there_is(c: Tally)
    ensures
        c.started > 0 ==> count_parts(c).contains(text::decimal(c.started) + " running"@),
        c.paused > 0 ==> count_parts(c).contains(text::decimal(c.paused) + " paused"@),
        c.suspended > 0 ==> count_parts(c).contains(text::decimal(c.suspended) + " suspended"@),
        c.destroyed > 0 ==> count_parts(c).contains(text::decimal(c.destroyed) + " gone"@),
        c.other > 0 ==> count_parts(c).contains(text::decimal(c.other) + " other"@),
        count_parts(c).len() == kinds(c.started) + kinds(c.paused) + kinds(c.suspended) + kinds(
            c.destroyed,
        ) + kinds(c.other),
{
    let parts = count_parts(c);
    let a = kinds(c.started);
    let b = a + kinds(c.paused);
    let d = b + kinds(c.suspended);
    let e = d + kinds(c.destroyed);
    if c.started > 0 {
        assert(parts[0] == text::decimal(c.started) + " running"@);
    }
    if c.paused > 0 {
        assert(parts[a as int] == text::decimal(c.paused) + " paused"@);
    }
    if c.suspended > 0 {
        assert(parts[b as int] == text::decimal(c.suspended) + " suspended"@);
    }
    if c.destroyed > 0 {
        assert(parts[d as int] == text::decimal(c.destroyed) + " gone"@);
    }
    if c.other > 0 {
        assert(parts[e as int] == text::decimal(c.other) + " other"@);
    }
}

/// One if there is any, otherwise none.
pub open spec fn kinds(n: nat) -> nat {
    if n > 0 {
        1
    } else {
        0
    }
}

/// What is said of the selected VM: its id always; its name, its gateway and
/// TAP, its idle timeout, how many ports it exposes, how old its snapshot is and
/// how large its volume, each exactly if there is one.
pub proof fn law_details_of_the_selected_vm(vm: Vm, now_ns: i64)
    ensures
        ({
            let c = vm.vm_config;
            let parts = detail_parts(vm, now_ns);
            let ports = c.network_config.exposed_ports@.len();
            &&& parts[0] == "selected  "@ + vm.vm_id@
            &&& c.name@.len() > 0 ==> parts.contains("name="@ + c.name@)
            &&& vm.net is Some ==> parts.contains(
                "gateway="@ + vm.net->0.gateway_ip@ + "  tap="@ + vm.net->0.tap_name@,
            )
            &&& c.auto_suspend is Some ==> parts.contains(
                "auto-suspend "@ + text::decimal(c.auto_suspend->0.idle_timeout_secs as nat)
                    + "s"@,
            )
            &&& ports > 0 ==> parts.contains(text::decimal(ports) + " exposed port(s)"@)
            &&& vm.snapshot is Some ==> parts.contains(
                "snap "@ + (duration_label(elapsed_secs(now_ns, vm.snapshot->0.created_at))
                    + " ago"@),
            )
            &&& c.block_storage is Some ==> parts.contains(
                "block "@ + gib_label(c.block_storage->0.size_mb as nat),
            )
            &&& parts.len() == 1 + kinds(c.name@.len()) + one_if(vm.net is Some) + one_if(
                c.auto_suspend is Some,
            ) + kinds(ports) + one_if(vm.snapshot is Some) + one_if(c.block_storage is Some)
        }),
{
    let c = vm.vm_config;
    let parts = detail_parts(vm, now_ns);
    let ports = c.network_config.exposed_ports@.len();
    let i1 = 1 + kinds(c.name@.len());
    let i2 = i1 + one_if(vm.net is Some);
    let i3 = i2 + one_if(c.auto_suspend is Some);
    let i4 = i3 + kinds(ports);
    let i5 = i4 + one_if(vm.snapshot is Some);
    if c.name@.len() > 0 {
        assert(parts[1] == "name="@ + c.name@);
    }
    if vm.net is Some {
        assert(parts[i1 as int] == "gateway="@ + vm.net->0.gateway_ip@ + "  tap="@
            + vm.net->0.tap_name@);
    }
    if c.auto_suspend is Some {
        assert(parts[i2 as int] == "auto-suspend "@ + text::decimal(
            c.auto_suspend->0.idle_timeout_secs as nat,
        ) + "s"@);
    }
    if ports > 0 {
        assert(parts[i3 as int] == text::decimal(ports) + " exposed port(s)"@);
    }
    if vm.snapshot is Some {
        assert(parts[i4 as int] == "snap "@ + (duration_label(
            elapsed_secs(now_ns, vm.snapshot->0.created_at),
        ) + " ago"@));
    }
    if c.block_storage is Some {
        assert(parts[i5 as int] == "block "@ + gib_label(c.block_storage->0.size_mb as nat));
    }
}

/// One if it is so.
pub open spec fn one_if(b: bool) -> nat {
    if b {
        1
    } else {
        0
    }
}

// ---------------------------------------------------------------------------
// The whole list
// ---------------------------------------------------------------------------

/// Headings stand above what they head: from one column to the next both move by
/// the column's width and a blank, and a cell begins with what the column holds.
pub proof fn law_headings_stand_above_columns(fields: Seq<Seq<char>>, i: int, budget: nat)
    requires
        0 <= i < 11,
    ensures
        headings_from(i).len() == width_of(i) + 1 + headings_from(i + 1).len(),
        text::has_prefix(headings_from(i), labels()[i]),
        cells_from(fields, i, budget).len() == width_of(i) + 1 + cells_from(
            fields,
            i + 1,
            less(budget, width_of(i) + 1),
        ).len(),
        text::has_prefix(cells_from(fields, i, budget), cut(fields[i], width_of(i))),
{
    reveal_strlit("VM ID");
    reveal_strlit("NAME");
    reveal_strlit("IP");
    reveal_strlit("SUBNET");
    reveal_strlit("IMAGE");
    reveal_strlit("CPU");
    reveal_strlit("MEM");
    reveal_strlit("DISK");
    reveal_strlit("MODE");
    reveal_strlit("PORTS");
    reveal_strlit("TAGS");
    reveal_strlit("UPTIME");
    let w = width_of(i);
    assert(labels()[i].len() <= w);
    let heading = padded(labels()[i], w + 1);
    assert(heading.len() == w + 1);
    assert(headings_from(i) == heading + headings_from(i + 1));
    assert(headings_from(i).take(labels()[i].len() as int) =~= labels()[i]);
    let part = cut(fields[i], w);
    let cell = cut(part, w + 1);
    assert(cell =~= part);
    assert(padded(cell, w + 1).len() == w + 1);
    let rest = cells_from(fields, i + 1, less(budget, w + 1));
    assert(cells_from(fields, i, budget) == padded(cell, w + 1) + rest);
    assert(cells_from(fields, i, budget).take(part.len() as int) =~= part);
}

/// The list has a line for every row, below the headings: the row of a VM says
/// that VM, marked exactly if it is the selected one.
pub proof fn law_every_row_has_its_line(
    view: VmView,
    now_ns: i64,
    width: nat,
    indicator: Seq<char>,
    r: int,
)
    requires
        view.order@.len() > 0,
        0 <= r < view.rows@.len(),
        view.rows@[r] is Vm,
    ensures
        ({
            let head = list_head(view, width, indicator);
            let list = list_of(view, now_ns, width, indicator);
            let vm = view.all@[view.order@[view.rows@[r]->Vm_0 as int] as int];
            &&& list.len() == head.len() + view.rows@.len()
            &&& list[head.len() + r] == row_spans(
                vm,
                now_ns,
                !view.grouped,
                width,
                view.selection() == Some(vm.vm_id@),
            )
            &&& head.len() == if indicator.len() > 0 {
                2nat
            } else {
                1
            }
        }),
{
}

/// The line that is taken for the selected one shows the selected VM, and if
/// none is taken, no row does.
pub proof fn law_selected_line_shows_selected_vm(view: VmView, n: int)
    requires
        0 <= n <= view.rows@.len(),
    ensures
        match selected_among(view, n) {
            Some(r) => 0 <= r < n && view.selection() is Some && row_vm_id(
                view.all@,
                view.order@,
                view.rows@[r],
            ) == view.selection(),
            None => view.selection() is Some ==> forall|r: int|
                0 <= r < n ==> row_vm_id(view.all@, view.order@, #[trigger] view.rows@[r])
                    != view.selection(),
        },
    decreases n,
{
    if n > 0 {
        law_selected_line_shows_selected_vm(view, n - 1);
    }
}

/// A dashboard without VMs tells whether there are none or the filter hides
/// them.
pub proof fn law_empty_list_says_why(view: VmView, now_ns: i64, width: nat, indicator: Seq<char>)
    requires
        view.order@.len() == 0,
    ensures
        ({
            let head = list_head(view, width, indicator);
            let list = list_of(view, now_ns, width, indicator);
            &&& list.len() == head.len() + 1
            &&& view.all@.len() > 0 ==> list.last()[0].0 == cut("no VMs match the filter"@, width)
            &&& view.all@.len() == 0 ==> list.last()[0].0 == cut(
                "no VMs yet — waiting for the first poll"@,
                width,
            )
        }),
{
}

/// The summary is of all VMs of the host, shown or not: how many there are and
/// run, and what they were allotted.
pub proof fn law_summary_is_of_the_host(view: VmView, refresh: Seq<char>)
    ensures
        ({
            let states = states_of(view.all@);
            let s = summary_text(view, refresh);
            &&& states.len() == view.all@.len()
            &&& text::has_prefix(
                s,
                "VMs "@ + text::decimal(view.all@.len()) + "   running "@ + text::decimal(
                    occurrences(states, VmState::Started),
                ) + "   paused "@ + text::decimal(occurrences(states, VmState::Paused))
                    + "   suspended "@ + text::decimal(occurrences(states, VmState::Suspended)),
            )
            &&& ({
                let end = "   projects "@ + text::decimal(projects_in(view.all@).len())
                    + "   alloc cpu "@ + text::decimal(cpus_of(view.all@)) + "  mem "@
                    + size_label(memory_of(view.all@)) + "   refresh "@ + refresh;
                s.skip(s.len() - end.len()) == end
            })
        }),
{
    let states = states_of(view.all@);
    let s = summary_text(view, refresh);
    crate::vmtop::listing::law_counts_add_up(states);
    crate::vmtop::laws::law_states_are_counted(states);
    let start = "VMs "@ + text::decimal(view.all@.len()) + "   running "@ + text::decimal(
        occurrences(states, VmState::Started),
    ) + "   paused "@ + text::decimal(occurrences(states, VmState::Paused)) + "   suspended "@
        + text::decimal(occurrences(states, VmState::Suspended));
    assert(s.take(start.len() as int) =~= start);
    let end = "   projects "@ + text::decimal(projects_in(view.all@).len()) + "   alloc cpu "@
        + text::decimal(cpus_of(view.all@)) + "  mem "@ + size_label(memory_of(view.all@))
        + "   refresh "@ + refresh;
    assert(s.skip(s.len() - end.len()) =~= end);
}

/// A header tells the counts of its project and how many VMs those are.
pub proof fn law_header_tells_counts(project_id: u64, c: Tally, subnet: Option<Seq<char>>)
    requires
        count_parts(c).len() > 0,
    ensures
        stands_in(
            "   ["@ + text::joined(count_parts(c), ", "@) + " · "@ + text::decimal(c.total)
                + " VM"@ + (if c.total == 1 {
                ""@
            } else {
                "s"@
            }) + "]"@,
            header_text(project_id, c, subnet),
        ),
{
    reveal(stands_in);
    let h = header_text(project_id, c, subnet);
    let counts = "   ["@ + text::joined(count_parts(c), ", "@) + " · "@ + text::decimal(c.total)
        + " VM"@ + (if c.total == 1 {
        ""@
    } else {
        "s"@
    }) + "]"@;
    let at = ("project "@ + padded(text::decimal(project_id as nat), 7)).len() as int;
    assert(h.subrange(at, at + counts.len()) =~= counts);
}

/// Where VMs are grouped, there is a header for every project with a VM that is
/// shown, and for no other, in the order of their numbers; it counts that
/// project's VMs, and names their subnet if one of them has one.
pub proof fn law_headers_are_of_shown_projects(
    all: Seq<Vm>,
    order: Seq<usize>,
    groups: Seq<Group>,
    rows: Seq<RowId>,
    g: int,
    k: int,
)
    requires
        laid_out(all, order, true, groups, rows),
        0 <= g < groups.len(),
        0 <= k < order.len(),
    ensures
        exists|h: int|
            0 <= h < groups.len() && (#[trigger] groups[h]).project_id
                == all[order[k] as int].vm_config.project_id,
        exists|l: int|
            0 <= l < order.len() && (#[trigger] all[order[l] as int]).vm_config.project_id
                == groups[g].project_id,
        g > 0 ==> groups[g - 1].project_id < groups[g].project_id,
        groups[g].counts.total == member_states(
            all,
            order,
            groups[g].project_id,
            order.len(),
        ).len(),
        groups[g].subnet is Some <==> exists|l: int|
            0 <= l < order.len() && (#[trigger] all[order[l] as int]).vm_config.project_id
                == groups[g].project_id && all[order[l] as int].net is Some,
        groups[g].subnet is Some ==> exists|l: int|
            0 <= l < order.len() && (#[trigger] all[order[l] as int]).vm_config.project_id
                == groups[g].project_id && all[order[l] as int].net is Some
                && all[order[l] as int].net->0.subnet@ == groups[g].subnet->0@,
{
    let pids = projects_shown(all, order);
    let projects = project_ids(groups);
    let p = groups[g].project_id;
    assert(projects[g] == p);
    assert(projects.contains(p));
    assert(pids.contains(p));
    let l = choose|l: int| 0 <= l < pids.len() && pids[l] == p;
    assert(all[order[l] as int].vm_config.project_id == p);
    let q = all[order[k] as int].vm_config.project_id;
    assert(pids[k] == q);
    assert(pids.contains(q));
    assert(projects.contains(q));
    let h = choose|h: int| 0 <= h < projects.len() && projects[h] == q;
    assert(groups[h].project_id == q);
    if g > 0 {
        assert(projects[g - 1] < projects[g]);
    }
    assert(heads(groups[g], all, order, p));
    let states = member_states(all, order, p, order.len());
    crate::vmtop::listing::law_counts_add_up(states);
    crate::vmtop::laws::law_header_is_of_its_vms(all, order, p, order.len());
}

/// What went wrong can be read in what the dashboard reports.
pub proof fn law_failures_are_reported(e: Error)
    ensures
        match e {
            Error::Api(m) => error_text(e) == "api request failed: "@ + m@,
            Error::Http { status, body } => error_text(e) == "hostd returned "@ + text::decimal(
                status as nat,
            ) + ": "@ + body@,
            Error::Io(m) => error_text(e) == "io error: "@ + m@,
            Error::MissingToken => stands_in("TIKOVM_HOSTD_API_TOKEN"@, error_text(e)),
        },
{
    reveal(stands_in);
    reveal_strlit("TIKOVM_HOSTD_API_TOKEN");
    reveal_strlit("missing API token: set TIKOVM_HOSTD_API_TOKEN or pass --token");
    let whole = "missing API token: set TIKOVM_HOSTD_API_TOKEN or pass --token"@;
    let part = "TIKOVM_HOSTD_API_TOKEN"@;
    let at: int = 23;
    assert(whole.subrange(at, at + part.len()) =~= part);
}

/// A text in a color is in that color and otherwise plain; a dimmed one is
/// dimmed, and nothing else.
pub proof fn law_styles(c: Color)
    ensures
        colored(c).color == Some(c) && !colored(c).bold && !colored(c).dim && !colored(c).reversed,
        dimmed().dim && dimmed().color is None && !dimmed().bold && !dimmed().reversed,
{
}

} // verus!

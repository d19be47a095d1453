//! The lines of the screen. Rows are packed into columns and cut to the width
//! of the screen, so nothing wraps and scrolling stays predictable. The program
//! paints them.

use vstd::prelude::*;

use crate::text;
use crate::vmm::state::VmState;
use crate::vmm::vm::VmMode;
use crate::vmtop::app::{App, FilterMode};
use crate::vmtop::listing::{Group, RowId};
use crate::vmtop::model::{state_text, Vm};
use crate::vmtop::view::VmView;

verus! {

/// The blank after each column.
pub const C_PAD: usize = 1;

/// The width of the project column.
pub const C_PROJ: usize = 7;

/// The width of the state column.
pub const C_STATE: usize = 10;

/// The width of the VM name column, of which the end is kept.
pub const C_ID: usize = 26;

/// The width of the column with the name that people gave.
pub const C_NAME: usize = 20;

/// The width of the image column.
pub const C_IMAGE: usize = 10;

/// How many columns follow the state.
pub const FIELDS: usize = 12;

/// The colors that are used.
#[derive(Debug, Clone, Copy, PartialEq, Eq, Structural)]
pub enum Color {
    Green,
    Yellow,
    Cyan,
    DarkGray,
    LightYellow,
    Magenta,
    LightBlue,
    Red,
}

/// How a text is painted.
#[derive(Debug, Clone, Copy, PartialEq, Eq, Structural)]
pub struct Style {
    pub color: Option<Color>,
    pub bold: bool,
    pub dim: bool,
    pub reversed: bool,
}

/// A piece of a line.
#[derive(Debug)]
pub struct Span {
    pub text: String,
    pub style: Style,
}

/// A line, by its pieces.
pub open spec fn line_view(line: Seq<Span>) -> Seq<(Seq<char>, Style)> {
    line.map_values(|s: Span| (s.text@, s.style))
}

/// Nothing special.
pub open spec fn plain() -> Style {
    Style { color: None, bold: false, dim: false, reversed: false }
}

/// In a color.
pub open spec fn colored(c: Color) -> Style {
    Style { color: Some(c), ..plain() }
}

/// Dimmed.
pub open spec fn dimmed() -> Style {
    Style { dim: true, ..plain() }
}

/// In a color.
fn color_style(c: Color) -> (s: Style)
    ensures
        s == colored(c),
{
    Style { color: Some(c), bold: false, dim: false, reversed: false }
}

/// Dimmed.
fn dim_style() -> (s: Style)
    ensures
        s == dimmed(),
{
    Style { color: None, bold: false, dim: true, reversed: false }
}

/// A line of one piece.
fn one_span(text: String, style: Style) -> (line: Vec<Span>)
    ensures
        line_view(line@) == seq![(text@, style)],
{
    let line = vec![Span { text, style }];
    proof {
        assert(line_view(line@) =~= seq![(text@, style)]);
    }
    line
}

// ---------------------------------------------------------------------------
// Columns
// ---------------------------------------------------------------------------

/// The first `n` characters.
pub open spec fn cut(s: Seq<char>, n: nat) -> Seq<char> {
    if n <= s.len() {
        s.take(n as int)
    } else {
        s
    }
}

/// A number of blanks.
pub open spec fn blanks(n: int) -> Seq<char> {
    if n <= 0 {
        seq![]
    } else {
        Seq::new(n as nat, |i: int| ' ')
    }
}

/// A text with blanks behind it, up to `n` characters.
pub open spec fn padded(s: Seq<char>, n: nat) -> Seq<char> {
    s + blanks(n - s.len())
}

/// The last `n` characters of what is longer, marked by two dots where there
/// is room for them.
pub open spec fn tail(s: Seq<char>, n: nat) -> Seq<char> {
    if s.len() <= n {
        s
    } else if n >= 4 {
        ".."@ + s.skip(s.len() - n + 2)
    } else {
        s.skip(s.len() - n)
    }
}

/// Keeps the first `count` characters.
pub fn cut_right(s: &str, count: usize) -> (r: String)
    ensures
        r@ == cut(s@, count as nat),
{
    let chars = text::chars_of(s);
    if count < chars.len() {
        let r = text::string_of(&chars.as_slice()[0..count]);
        proof {
            assert(r@ =~= s@.take(count as int));
        }
        r
    } else {
        proof {
            assert(s@.take(s@.len() as int) =~= s@);
        }
        s.to_owned()
    }
}

/// Keeps the last `count` characters and marks what was shortened: a VM is
/// told by the end of its name.
pub fn cut_tail(s: &str, count: usize) -> (r: String)
    ensures
        r@ == tail(s@, count as nat),
{
    let chars = text::chars_of(s);
    let n: usize = chars.len();
    if n <= count {
        s.to_owned()
    } else if count >= 4 {
        let rest = text::string_of(&chars.as_slice()[n - count + 2..n]);
        proof {
            assert(rest@ =~= s@.skip(n - count + 2));
        }
        text::cat2("..", &rest)
    } else {
        let rest = text::string_of(&chars.as_slice()[n - count..n]);
        proof {
            assert(rest@ =~= s@.skip(n - count));
        }
        rest
    }
}

/// Adds blanks up to `count` characters.
pub fn pad(s: &str, count: usize) -> (r: String)
    ensures
        r@ == padded(s@, count as nat),
{
    let mut r = s.to_owned();
    let mut n: usize = text::chars_of(s).len();
    proof {
        assert(s@ + blanks(0) =~= s@);
    }
    while n < count
        invariant
            s@.len() <= n,
            n <= count || n == s@.len(),
            r@ == s@ + blanks(n - s@.len()),
        decreases count - n,
    {
        r.push(' ');
        n += 1;
        proof {
            assert(r@ =~= s@ + blanks(n - s@.len()));
        }
    }
    proof {
        if count < s@.len() {
            assert(padded(s@, count as nat) =~= s@);
        }
    }
    r
}

/// Makes a text exactly `count` characters wide.
pub fn col(s: &str, count: usize) -> (r: String)
    ensures
        r@ == padded(cut(s@, count as nat), count as nat),
        r@.len() == count,
{
    pad(&cut_right(s, count), count)
}

/// Cuts a line to the width of the screen.
pub fn clip(s: &str, width: usize) -> (r: String)
    ensures
        r@ == cut(s@, width as nat),
{
    cut_right(s, width)
}

/// The width of the columns that follow the state.
pub open spec fn width_of(i: int) -> nat {
    if i == 0 {
        C_ID as nat
    } else if i == 1 {
        C_NAME as nat
    } else if i == 2 || i == 3 {
        12
    } else if i == 4 {
        C_IMAGE as nat
    } else if i == 5 {
        4
    } else if i == 6 || i == 8 {
        6
    } else if i == 7 {
        7
    } else if i == 9 {
        16
    } else if i == 10 {
        14
    } else {
        8
    }
}

/// The width of a column that follows the state.
fn field_width(i: usize) -> (w: usize)
    ensures
        w == width_of(i as int),
{
    if i == 0 {
        C_ID
    } else if i == 1 {
        C_NAME
    } else if i == 2 || i == 3 {
        12
    } else if i == 4 {
        C_IMAGE
    } else if i == 5 {
        4
    } else if i == 6 || i == 8 {
        6
    } else if i == 7 {
        7
    } else if i == 9 {
        16
    } else if i == 10 {
        14
    } else {
        8
    }
}

/// The headings of the columns that follow the state.
pub open spec fn labels() -> Seq<Seq<char>> {
    seq![
        "VM ID"@,
        "NAME"@,
        "IP"@,
        "SUBNET"@,
        "IMAGE"@,
        "CPU"@,
        "MEM"@,
        "DISK"@,
        "MODE"@,
        "PORTS"@,
        "TAGS"@,
        "UPTIME"@,
    ]
}

/// The headings of the columns that follow the state.
fn field_labels() -> (r: Vec<String>)
    ensures
        text::views(r@) == labels(),
{
    let r = text::owned(
        &[
            "VM ID",
            "NAME",
            "IP",
            "SUBNET",
            "IMAGE",
            "CPU",
            "MEM",
            "DISK",
            "MODE",
            "PORTS",
            "TAGS",
            "UPTIME",
        ],
    );
    proof {
        assert(text::views(r@) =~= labels());
    }
    r
}

/// The color of a state.
pub open spec fn color_of(s: VmState) -> Color {
    match s {
        VmState::Started => Color::Green,
        VmState::Paused => Color::Yellow,
        VmState::Suspended => Color::Cyan,
        VmState::Destroyed => Color::DarkGray,
        VmState::Created => Color::LightYellow,
        _ => Color::Magenta,
    }
}

/// The color of a state.
pub fn state_color(state: VmState) -> (c: Color)
    ensures
        c == color_of(state),
{
    match state {
        VmState::Started => Color::Green,
        VmState::Paused => Color::Yellow,
        VmState::Suspended => Color::Cyan,
        VmState::Destroyed => Color::DarkGray,
        VmState::Created => Color::LightYellow,
        _ => Color::Magenta,
    }
}

// ---------------------------------------------------------------------------
// Rows
// ---------------------------------------------------------------------------

/// The port numbers of a VM.
pub open spec fn port_texts(vm: Vm) -> Seq<Seq<char>> {
    vm.vm_config.network_config.exposed_ports@.map_values(
        |p: crate::vmtop::model::ExposedPort| text::decimal(p.port as nat),
    )
}

/// The short name of a mode.
pub open spec fn mode_label(m: VmMode) -> Seq<char> {
    match m {
        VmMode::Ephemeral => "eph"@,
        VmMode::Permanent => "perm"@,
        VmMode::Schedule => "sched"@,
    }
}

/// What stands in the columns of a VM that follow its state.
pub open spec fn fields_of(vm: Vm, now_ns: i64) -> Seq<Seq<char>> {
    let c = vm.vm_config;
    seq![
        tail(vm.vm_id@, C_ID as nat),
        cut(c.name@, C_NAME as nat),
        match vm.net {
            Some(net) => net.guest_ip@,
            None => seq![],
        },
        match vm.net {
            Some(net) => net.subnet@,
            None => seq![],
        },
        cut(c.image@, C_IMAGE as nat),
        text::decimal(c.cpus as nat),
        crate::vmtop::format::size_label(c.memory_mb as nat),
        crate::vmtop::format::size_label(c.disk_size_mb as nat),
        mode_label(c.mode),
        text::joined(port_texts(vm), ","@),
        text::joined(text::views(c.tags@), ","@),
        crate::vmtop::format::duration_label(crate::vmtop::format::elapsed_secs(now_ns, vm.created_at)),
    ]
}

/// The port numbers of a VM.
fn ports_text(vm: &Vm) -> (s: String)
    ensures
        s@ == text::joined(port_texts(*vm), ","@),
{
    let ports = &vm.vm_config.network_config.exposed_ports;
    let mut texts: Vec<String> = Vec::new();
    let mut i: usize = 0;
    while i < ports.len()
        invariant
            i <= ports@.len(),
            ports@ == vm.vm_config.network_config.exposed_ports@,
            text::views(texts@) == port_texts(*vm).take(i as int),
        decreases ports@.len() - i,
    {
        let ghost before = text::views(texts@);
        texts.push(text::decimal_string(ports[i].port as u64));
        proof {
            let all = port_texts(*vm);
            assert(text::views(texts@) =~= before.push(all[i as int]));
            assert(all.take(i as int + 1) =~= all.take(i as int).push(all[i as int]));
        }
        i += 1;
    }
    proof {
        assert(port_texts(*vm).take(port_texts(*vm).len() as int) =~= port_texts(*vm));
    }
    text::join(&texts, ",")
}

/// What stands in the columns of a VM that follow its state.
pub fn vm_fields(vm: &Vm, now_ns: i64) -> (fields: Vec<String>)
    ensures
        text::views(fields@) == fields_of(*vm, now_ns),
{
    let ip = match &vm.net {
        Some(net) => net.guest_ip.clone(),
        None => String::new(),
    };
    let subnet = match &vm.net {
        Some(net) => net.subnet.clone(),
        None => String::new(),
    };
    let mode = match vm.vm_config.mode {
        VmMode::Ephemeral => "eph",
        VmMode::Permanent => "perm",
        VmMode::Schedule => "sched",
    };
    let fields = vec![
        cut_tail(&vm.vm_id, C_ID),
        cut_right(&vm.vm_config.name, C_NAME),
        ip,
        subnet,
        cut_right(&vm.vm_config.image, C_IMAGE),
        text::decimal_string(vm.vm_config.cpus as u64),
        crate::vmtop::format::memory_mib(vm.vm_config.memory_mb as u64),
        crate::vmtop::format::disk_mib(vm.vm_config.disk_size_mb as u64),
        mode.to_owned(),
        ports_text(vm),
        text::join(&vm.vm_config.tags, ","),
        crate::vmtop::format::uptime(now_ns, vm.created_at),
    ];
    proof {
        assert(text::views(fields@) =~= fields_of(*vm, now_ns));
    }
    fields
}

/// One count of a header, if there is anything to count.
pub open spec fn count_part(n: nat, what: Seq<char>) -> Seq<Seq<char>> {
    if n > 0 {
        seq![text::decimal(n) + what]
    } else {
        seq![]
    }
}

/// The counts of a header.
pub open spec fn count_parts(c: crate::vmtop::listing::Tally) -> Seq<Seq<char>> {
    count_part(c.started, " running"@) + count_part(c.paused, " paused"@) + count_part(
        c.suspended,
        " suspended"@,
    ) + count_part(c.destroyed, " gone"@) + count_part(c.other, " other"@)
}

/// The header of a project.
pub open spec fn header_text(
    project_id: u64,
    c: crate::vmtop::listing::Tally,
    subnet: Option<Seq<char>>,
) -> Seq<char> {
    let head = "project "@ + padded(text::decimal(project_id as nat), C_PROJ as nat);
    let counts = if count_parts(c).len() > 0 {
        "   ["@ + text::joined(count_parts(c), ", "@) + " · "@ + text::decimal(c.total) + " VM"@ + (
        if c.total == 1 {
            ""@
        } else {
            "s"@
        }) + "]"@
    } else {
        seq![]
    };
    let net = match subnet {
        Some(s) => "   subnet "@ + s,
        None => seq![],
    };
    head + counts + net
}

/// Adds one count, if there is anything to count.
fn push_count(parts: &mut Vec<String>, n: usize, what: &str)
    ensures
        text::views(final(parts)@) == text::views(old(parts)@) + count_part(n as nat, what@),
{
    if n > 0 {
        parts.push(text::cat2(&text::decimal_string(n as u64), what));
    }
    proof {
        assert(text::views(parts@) =~= text::views(old(parts)@) + count_part(n as nat, what@));
    }
}

/// The header of a project.
pub fn group_header(group: &Group, width: usize) -> (line: Vec<Span>)
    ensures
        line_view(line@) == seq![
            (
                cut(
                    header_text(group.project_id, group.counts@, text::opt_view(group.subnet)),
                    width as nat,
                ),
                Style { bold: true, ..colored(Color::Cyan) },
            ),
        ],
{
    let c = &group.counts;
    let mut s = text::cat2("project ", &pad(&text::decimal_string(group.project_id), C_PROJ));
    let mut parts: Vec<String> = Vec::new();
    proof {
        assert(text::views(parts@) =~= seq![]);
    }
    push_count(&mut parts, c.started, " running");
    push_count(&mut parts, c.paused, " paused");
    push_count(&mut parts, c.suspended, " suspended");
    push_count(&mut parts, c.destroyed, " gone");
    push_count(&mut parts, c.other, " other");
    proof {
        assert(text::views(parts@) =~= count_parts(group.counts@));
        assert(text::views(parts@).len() == parts@.len());
    }
    let ghost head = s@;
    if parts.len() > 0 {
        let plural = if c.total == 1 {
            ""
        } else {
            "s"
        };
        let more = text::cat7(
            "   [",
            &text::join(&parts, ", "),
            " · ",
            &text::decimal_string(c.total as u64),
            " VM",
            plural,
            "]",
        );
        s = text::cat2(&s, &more);
    } else {
        proof {
            assert(head + Seq::<char>::empty() =~= head);
        }
    }
    let ghost counted = s@;
    if let Some(subnet) = &group.subnet {
        s = text::cat3(&s, "   subnet ", subnet);
        proof {
            assert(s@ =~= counted + ("   subnet "@ + subnet@));
        }
    } else {
        proof {
            assert(counted + Seq::<char>::empty() =~= counted);
        }
    }
    proof {
        assert(s@ =~= header_text(group.project_id, group.counts@, text::opt_view(group.subnet)));
    }
    one_span(
        clip(&s, width),
        Style { color: Some(Color::Cyan), bold: true, dim: false, reversed: false },
    )
}

/// The headings from a column on.
pub open spec fn headings_from(i: int) -> Seq<char>
    decreases FIELDS - i,
{
    if i < 0 || i >= FIELDS {
        seq![]
    } else {
        padded(labels()[i], width_of(i) + C_PAD as nat) + headings_from(i + 1)
    }
}

/// The heading line. The project has a column only where VMs are not grouped.
pub open spec fn heading_text(flat: bool) -> Seq<char> {
    padded("STATE"@, C_STATE as nat) + (if flat {
        padded("PROJ"@, (C_PROJ + C_PAD) as nat)
    } else {
        seq![]
    }) + headings_from(0)
}

/// The heading line.
pub fn heading_line(flat: bool, width: usize) -> (line: Vec<Span>)
    ensures
        line_view(line@) == seq![(cut(heading_text(flat), width as nat), dimmed())],
{
    let mut s = pad("STATE", C_STATE);
    if flat {
        s = text::cat2(&s, &pad("PROJ", C_PROJ + C_PAD));
    } else {
        proof {
            assert(s@ + Seq::<char>::empty() =~= s@);
        }
    }
    let labels = field_labels();
    let mut i: usize = 0;
    proof {
        assert(text::views(labels@).len() == labels@.len());
    }
    while i < labels.len()
        invariant
            text::views(labels@) == self::labels(),
            labels@.len() == FIELDS,
            i <= FIELDS,
            s@ + headings_from(i as int) == heading_text(flat),
        decreases FIELDS - i,
    {
        let ghost before = s@;
        proof {
            assert(text::views(labels@)[i as int] == labels@[i as int]@);
        }
        s = text::cat2(&s, &pad(&labels[i], field_width(i) + C_PAD));
        proof {
            assert(s@ + headings_from(i as int + 1) =~= before + headings_from(i as int));
        }
        i += 1;
    }
    proof {
        assert(s@ + headings_from(FIELDS as int) =~= s@);
    }
    one_span(clip(&s, width), dim_style())
}

/// What remains.
pub open spec fn less(a: nat, b: nat) -> nat {
    if a > b {
        (a - b) as nat
    } else {
        0
    }
}

/// The width of a column when `budget` characters remain: the last column
/// takes what is left.
pub open spec fn width_within(i: int, budget: nat) -> nat {
    if i == FIELDS - 1 && budget < width_of(i) {
        budget
    } else {
        width_of(i)
    }
}

/// The columns of a VM from one on.
pub open spec fn cells_from(fields: Seq<Seq<char>>, i: int, budget: nat) -> Seq<char>
    decreases FIELDS - i,
{
    if i < 0 || i >= FIELDS {
        seq![]
    } else {
        let w = width_within(i, budget);
        let cell = cut(cut(fields[i], w), w + C_PAD as nat);
        padded(cell, w + C_PAD as nat) + cells_from(fields, i + 1, less(budget, w + C_PAD as nat))
    }
}

/// What stands in a row behind the state.
pub open spec fn row_rest(vm: Vm, now_ns: i64, flat: bool, width: nat) -> Seq<char> {
    let project = text::decimal(vm.vm_config.project_id as nat);
    let lead = C_STATE + C_PAD + if flat {
        C_PROJ + C_PAD
    } else {
        0
    };
    (if flat {
        padded(cut(project, C_PROJ as nat), C_PROJ as nat) + " "@
    } else {
        seq![]
    }) + cells_from(fields_of(vm, now_ns), 0, less(width, lead as nat))
}

/// The row of a VM.
pub open spec fn row_spans(vm: Vm, now_ns: i64, flat: bool, width: nat, selected: bool) -> Seq<
    (Seq<char>, Style),
> {
    let mark = Style { bold: selected, reversed: selected, ..plain() };
    let state = crate::vmtop::model::state_label(vm.state);
    let project = text::decimal(vm.vm_config.project_id as nat);
    seq![
        (
            padded(cut(state, C_STATE as nat), C_STATE as nat),
            Style { color: Some(color_of(vm.state)), ..mark },
        ),
    ] + (if flat {
        seq![(padded(cut(project, C_PROJ as nat), C_PROJ as nat), mark)]
    } else {
        seq![]
    }) + seq![(row_rest(vm, now_ns, flat, width), mark)]
}

/// What stands in a row behind the state.
fn rest_of_row(vm: &Vm, now_ns: i64, flat: bool, width: usize) -> (rest: String)
    ensures
        rest@ == row_rest(*vm, now_ns, flat, width as nat),
{
    let fields = vm_fields(vm, now_ns);
    let ghost all = fields_of(*vm, now_ns);
    let mut rest = String::new();
    if flat {
        rest = text::cat2(&col(&text::decimal_string(vm.vm_config.project_id), C_PROJ), " ");
    }
    let lead: usize = if flat {
        C_STATE + C_PAD + C_PROJ + C_PAD
    } else {
        C_STATE + C_PAD
    };
    let mut budget: usize = width.saturating_sub(lead);
    let mut i: usize = 0;
    let ghost whole = row_rest(*vm, now_ns, flat, width as nat);
    proof {
        assert(text::views(fields@).len() == fields@.len());
        assert(rest@ + cells_from(all, 0, budget as nat) =~= whole);
    }
    while i < fields.len()
        invariant
            i <= FIELDS,
            fields@.len() == FIELDS,
            all == text::views(fields@),
            rest@ + cells_from(all, i as int, budget as nat) == whole,
        decreases FIELDS - i,
    {
        let full = field_width(i);
        let w: usize = if i == FIELDS - 1 && budget < full {
            budget
        } else {
            full
        };
        let ghost before = rest@;
        let ghost left = budget as nat;
        proof {
            assert(all[i as int] == fields@[i as int]@);
        }
        rest = text::cat2(&rest, &col(&cut_right(&fields[i], w), w + C_PAD));
        budget = budget.saturating_sub(w + C_PAD);
        proof {
            assert(rest@ + cells_from(all, i as int + 1, budget as nat) =~= before + cells_from(
                all,
                i as int,
                left,
            ));
        }
        i += 1;
    }
    proof {
        assert(rest@ + cells_from(all, FIELDS as int, budget as nat) =~= rest@);
    }
    rest
}

/// The row of a VM.
pub fn vm_row(vm: &Vm, now_ns: i64, flat: bool, width: usize, selected: bool) -> (line: Vec<Span>)
    ensures
        line_view(line@) == row_spans(*vm, now_ns, flat, width as nat, selected),
{
    let mark = Style { color: None, bold: selected, dim: false, reversed: selected };
    let state_style = Style {
        color: Some(state_color(vm.state)),
        bold: selected,
        dim: false,
        reversed: selected,
    };
    let mut line: Vec<Span> = Vec::new();
    line.push(Span { text: col(state_text(vm.state), C_STATE), style: state_style });
    if flat {
        line.push(
            Span {
                text: col(&text::decimal_string(vm.vm_config.project_id), C_PROJ),
                style: mark,
            },
        );
    }
    line.push(Span { text: rest_of_row(vm, now_ns, flat, width), style: mark });
    proof {
        assert(line_view(line@) =~= row_spans(*vm, now_ns, flat, width as nat, selected));
    }
    line
}

// ---------------------------------------------------------------------------
// The list
// ---------------------------------------------------------------------------

/// The line of a row.
pub open spec fn row_line(view: VmView, row: RowId, now_ns: i64, width: nat) -> Seq<
    (Seq<char>, Style),
> {
    match row {
        RowId::Group(g) => {
            let group = view.groups@[g as int];
            seq![
                (
                    cut(
                        header_text(group.project_id, group.counts@, text::opt_view(group.subnet)),
                        width,
                    ),
                    Style { bold: true, ..colored(Color::Cyan) },
                ),
            ]
        },
        RowId::Vm(k) => {
            let vm = view.all@[view.order@[k as int] as int];
            row_spans(vm, now_ns, !view.grouped, width, view.selection() == Some(vm.vm_id@))
        },
    }
}

/// The lines of the first `n` rows.
pub open spec fn row_lines(view: VmView, n: int, now_ns: i64, width: nat) -> Seq<
    Seq<(Seq<char>, Style)>,
> {
    Seq::new(n as nat, |r: int| row_line(view, view.rows@[r], now_ns, width))
}

/// The last of the first `n` rows that shows the selected VM.
pub open spec fn selected_among(view: VmView, n: int) -> Option<int>
    decreases n,
{
    if n <= 0 {
        None
    } else {
        let id = crate::vmtop::view::row_vm_id(view.all@, view.order@, view.rows@[n - 1]);
        if id is Some && view.selection() == id {
            Some(n - 1)
        } else {
            selected_among(view, n - 1)
        }
    }
}

/// What stands above the rows: the filter, if there is one, and the headings.
pub open spec fn list_head(view: VmView, width: nat, indicator: Seq<char>) -> Seq<
    Seq<(Seq<char>, Style)>,
> {
    (if indicator.len() > 0 {
        seq![
            seq![
                (
                    cut("filter: \""@ + indicator + "\"  (Esc clears)"@, width),
                    colored(Color::Cyan),
                ),
            ],
        ]
    } else {
        seq![]
    }) + seq![seq![(cut(heading_text(!view.grouped), width), dimmed())]]
}

/// What stands in place of the rows when no VM is shown.
pub open spec fn nothing_text(view: VmView) -> Seq<char> {
    if view.all@.len() == 0 {
        "no VMs yet — waiting for the first poll"@
    } else {
        "no VMs match the filter"@
    }
}

/// The lines of the list.
pub open spec fn list_of(view: VmView, now_ns: i64, width: nat, indicator: Seq<char>) -> Seq<
    Seq<(Seq<char>, Style)>,
> {
    list_head(view, width, indicator) + if view.order@.len() == 0 {
        seq![seq![(cut(nothing_text(view), width), dimmed())]]
    } else {
        row_lines(view, view.rows@.len() as int, now_ns, width)
    }
}

/// Lines, by their pieces.
pub open spec fn lines_view(lines: Seq<Vec<Span>>) -> Seq<Seq<(Seq<char>, Style)>> {
    lines.map_values(|l: Vec<Span>| line_view(l@))
}

/// Appends a line.
fn push_line(lines: &mut Vec<Vec<Span>>, line: Vec<Span>)
    ensures
        lines_view(final(lines)@) == lines_view(old(lines)@).push(line_view(line@)),
{
    lines.push(line);
    proof {
        assert(lines_view(lines@) =~= lines_view(old(lines)@).push(line_view(line@)));
    }
}

/// Every header row of a project refers to one.
proof fn lemma_group_rows_in_range(pids: Seq<u64>, projects: Seq<u64>)
    requires
        projects.len() <= usize::MAX,
    ensures
        forall|j: int|
            0 <= j < crate::vmtop::listing::grouped_rows(pids, projects).len() && (
            #[trigger] crate::vmtop::listing::grouped_rows(pids, projects)[j]) is Group
                ==> crate::vmtop::listing::grouped_rows(pids, projects)[j]->Group_0
                < projects.len(),
    decreases projects.len(),
{
    if projects.len() > 0 {
        let init = crate::vmtop::listing::grouped_rows(pids, projects.drop_last());
        let members = crate::vmtop::listing::member_rows(pids, projects.last(), pids.len());
        let full = crate::vmtop::listing::grouped_rows(pids, projects);
        lemma_group_rows_in_range(pids, projects.drop_last());
        lemma_members_are_vms(pids, projects.last(), pids.len());
        assert forall|j: int| 0 <= j < full.len() && (
        #[trigger] full[j]) is Group implies full[j]->Group_0 < projects.len() by {
            if j < init.len() {
                assert(full[j] == init[j]);
            } else if j > init.len() {
                assert(full[j] == members[j - init.len() - 1]);
            }
        }
    }
}

proof fn lemma_members_are_vms(pids: Seq<u64>, p: u64, n: nat)
    ensures
        forall|j: int|
            0 <= j < crate::vmtop::listing::member_rows(pids, p, n).len() ==> (
            #[trigger] crate::vmtop::listing::member_rows(pids, p, n)[j]) is Vm,
    decreases n,
{
    if n > 0 {
        lemma_members_are_vms(pids, p, (n - 1) as nat);
        let rest = crate::vmtop::listing::member_rows(pids, p, (n - 1) as nat);
        let full = crate::vmtop::listing::member_rows(pids, p, n);
        assert forall|j: int| 0 <= j < full.len() implies (#[trigger] full[j]) is Vm by {
            if j < rest.len() {
                assert(full[j] == rest[j]);
            }
        }
    }
}

/// The lines of the list, and which of them shows the selected VM.
pub fn body_lines(view: &VmView, now_ns: i64, width: usize, filter_indicator: &str) -> (r: (
    Vec<Vec<Span>>,
    Option<usize>,
))
    requires
        view.wf(),
    ensures
        lines_view(r.0@) == list_of(*view, now_ns, width as nat, filter_indicator@),
        match selected_among(*view, view.rows@.len() as int) {
            Some(row) => view.order@.len() > 0 ==> r.1 == Some(
                (list_head(*view, width as nat, filter_indicator@).len() + row) as usize,
            ),
            None => r.1 is None,
        },
        view.order@.len() == 0 ==> r.1 is None,
{
    let flat = !view.grouped;
    let mut lines: Vec<Vec<Span>> = Vec::new();
    proof {
        assert(lines_view(lines@) =~= seq![]);
    }
    if filter_indicator.unicode_len() > 0 {
        let s = text::cat3("filter: \"", filter_indicator, "\"  (Esc clears)");
        push_line(&mut lines, one_span(clip(&s, width), color_style(Color::Cyan)));
    }
    push_line(&mut lines, heading_line(flat, width));
    let ghost head = list_head(*view, width as nat, filter_indicator@);
    proof {
        assert(lines_view(lines@) =~= head);
    }
    if view.is_empty() {
        let msg = if view.all.len() == 0 {
            "no VMs yet — waiting for the first poll"
        } else {
            "no VMs match the filter"
        };
        push_line(&mut lines, one_span(clip(msg, width), dim_style()));
        proof {
            assert(lines_view(lines@) =~= list_of(
                *view,
                now_ns,
                width as nat,
                filter_indicator@,
            ));
        }
        return (lines, None);
    }
    let mut at: Option<usize> = None;
    let selected = view.selected_vm();
    let mut i: usize = 0;
    proof {
        assert(row_lines(*view, 0, now_ns, width as nat) =~= seq![]);
        assert(head + row_lines(*view, 0, now_ns, width as nat) =~= head);
        if view.grouped {
            assert(view.groups.len() == view.groups@.len());
            assert(crate::vmtop::listing::project_ids(view.groups@).len() == view.groups@.len());
            lemma_group_rows_in_range(
                crate::vmtop::listing::projects_shown(view.all@, view.order@),
                crate::vmtop::listing::project_ids(view.groups@),
            );
        }
    }
    while i < view.rows.len()
        invariant
            view.wf(),
            flat == !view.grouped,
            i <= view.rows@.len(),
            head == list_head(*view, width as nat, filter_indicator@),
            lines_view(lines@) == head + row_lines(*view, i as int, now_ns, width as nat),
            forall|j: int|
                0 <= j < view.rows@.len() && (#[trigger] view.rows@[j]) is Group
                    ==> view.rows@[j]->Group_0 < view.groups@.len(),
            match selected {
                Some(vm) => view.selection() == Some(vm.vm_id@),
                None => view.selection() is None,
            },
            match selected_among(*view, i as int) {
                Some(row) => at == Some((head.len() + row) as usize),
                None => at is None,
            },
        decreases view.rows@.len() - i,
    {
        let ghost before = lines_view(lines@);
        proof {
            assert(lines_view(lines@).len() == lines@.len());
        }
        match view.rows[i] {
            RowId::Group(g) => {
                push_line(&mut lines, group_header(&view.groups[g], width));
            },
            RowId::Vm(k) => {
                let vm = view.vm(k);
                let sel = match selected {
                    Some(s) => text::str_eq(&s.vm_id, &vm.vm_id),
                    None => false,
                };
                if sel {
                    at = Some(lines.len());
                }
                push_line(&mut lines, vm_row(vm, now_ns, flat, width, sel));
            },
        }
        proof {
            let r = row_lines(*view, i as int, now_ns, width as nat);
            let line = row_line(*view, view.rows@[i as int], now_ns, width as nat);
            assert(lines_view(lines@) =~= before.push(line));
            assert(row_lines(*view, i as int + 1, now_ns, width as nat) =~= r.push(line));
            assert(head + r.push(line) =~= (head + r).push(line));
        }
        i += 1;
    }
    (lines, at)
}

/// How far the list is scrolled: so that the selected line stands in the middle
/// of the window, as far as the ends of the list allow.
pub open spec fn scroll_of(total_lines: nat, selected: Option<nat>, window: nat) -> nat {
    if window == 0 || total_lines <= window {
        0
    } else {
        match selected {
            None => 0,
            Some(pos) => if pos <= window / 2 {
                0
            } else if pos - window / 2 > total_lines - window {
                (total_lines - window) as nat
            } else {
                (pos - window / 2) as nat
            },
        }
    }
}

/// How far the list is scrolled. The screen counts lines in 16 bits.
pub fn scroll_top(total_lines: usize, selected: Option<usize>, window: usize) -> (top: u16)
    ensures
        top == scroll_of(
            total_lines as nat,
            match selected {
                Some(pos) => Some(pos as nat),
                None => None,
            },
            window as nat,
        ) % 0x1_0000,
{
    if window == 0 || total_lines <= window {
        return 0;
    }
    let pos = match selected {
        None => {
            return 0;
        },
        Some(pos) => pos,
    };
    let half: usize = window / 2;
    let top: usize = if pos <= half {
        0
    } else if pos - half > total_lines - window {
        total_lines - window
    } else {
        pos - half
    };
    (top % 0x1_0000) as u16
}

/// The selected line is in the window, whatever is selected.
pub proof fn law_selected_line_is_in_window(total_lines: nat, pos: nat, window: nat)
    requires
        pos < total_lines,
        window > 0,
    ensures
        scroll_of(total_lines, Some(pos), window) <= pos,
        pos < scroll_of(total_lines, Some(pos), window) + window,
        scroll_of(total_lines, Some(pos), window) + window <= total_lines || scroll_of(
            total_lines,
            Some(pos),
            window,
        ) == 0,
{
}

// ---------------------------------------------------------------------------
// Above and below the list
// ---------------------------------------------------------------------------

/// What is said of the selected VM.
pub open spec fn detail_parts(vm: Vm, now_ns: i64) -> Seq<Seq<char>> {
    let c = vm.vm_config;
    let ports = c.network_config.exposed_ports@.len();
    seq!["selected  "@ + vm.vm_id@] + (if c.name@.len() > 0 {
        seq!["name="@ + c.name@]
    } else {
        seq![]
    }) + (match vm.net {
        Some(net) => seq!["gateway="@ + net.gateway_ip@ + "  tap="@ + net.tap_name@],
        None => seq![],
    }) + (match c.auto_suspend {
        Some(a) => seq!["auto-suspend "@ + text::decimal(a.idle_timeout_secs as nat) + "s"@],
        None => seq![],
    }) + (if ports > 0 {
        seq![text::decimal(ports) + " exposed port(s)"@]
    } else {
        seq![]
    }) + (match vm.snapshot {
        Some(snap) => seq![
            "snap "@ + (crate::vmtop::format::duration_label(
                crate::vmtop::format::elapsed_secs(now_ns, snap.created_at),
            ) + " ago"@),
        ],
        None => seq![],
    }) + (match c.block_storage {
        Some(bs) => seq!["block "@ + crate::vmtop::format::gib_label(bs.size_mb as nat)],
        None => seq![],
    })
}

/// Appends a text.
fn push_part(parts: &mut Vec<String>, part: String)
    ensures
        text::views(final(parts)@) == text::views(old(parts)@).push(part@),
{
    parts.push(part);
    proof {
        assert(text::views(parts@) =~= text::views(old(parts)@).push(part@));
    }
}

/// The line about the selected VM.
pub fn detail_line(view: &VmView, now_ns: i64) -> (line: Vec<Span>)
    requires
        view.wf(),
    ensures
        match view.selected_row {
            None => line_view(line@) == seq![("no VM selected"@, dimmed())],
            Some(r) => line_view(line@) == seq![
                (
                    text::joined(
                        detail_parts(
                            view.all@[view.order@[view.rows@[r as int]->Vm_0 as int] as int],
                            now_ns,
                        ),
                        "   "@,
                    ),
                    colored(Color::LightBlue),
                ),
            ],
        },
{
    let vm = match view.selected_vm() {
        None => {
            return one_span("no VM selected".to_owned(), dim_style());
        },
        Some(vm) => vm,
    };
    let mut parts: Vec<String> = Vec::new();
    proof {
        assert(text::views(parts@) =~= seq![]);
    }
    push_part(&mut parts, text::cat2("selected  ", &vm.vm_id));
    if vm.vm_config.name.as_str().unicode_len() > 0 {
        push_part(&mut parts, text::cat2("name=", &vm.vm_config.name));
    }
    if let Some(net) = &vm.net {
        push_part(
            &mut parts,
            text::cat4("gateway=", &net.gateway_ip, "  tap=", &net.tap_name),
        );
    }
    if let Some(a) = &vm.vm_config.auto_suspend {
        push_part(
            &mut parts,
            text::cat3("auto-suspend ", &text::decimal_string(a.idle_timeout_secs), "s"),
        );
    }
    let ports = vm.exposed_port_count();
    if ports > 0 {
        push_part(
            &mut parts,
            text::cat2(&text::decimal_string(ports as u64), " exposed port(s)"),
        );
    }
    if let Some(snap) = &vm.snapshot {
        push_part(
            &mut parts,
            text::cat2("snap ", &crate::vmtop::format::ago(now_ns, snap.created_at)),
        );
    }
    if let Some(bs) = &vm.vm_config.block_storage {
        push_part(
            &mut parts,
            text::cat2("block ", &crate::vmtop::format::gib(bs.size_mb as u64)),
        );
    }
    proof {
        assert(text::views(parts@) =~= detail_parts(*vm, now_ns));
    }
    one_span(text::join(&parts, "   "), color_style(Color::LightBlue))
}

/// What the keys do, in short.
pub const HELP: &'static str =
    "j/k or ↑/↓ move · PgUp/PgDn · g/G first/last · / filter · f group/flat · s sort · r refresh · q quit";

/// The bottom line: the filter while it is edited, otherwise what the keys do.
pub fn help_line(app: &App) -> (line: Vec<Span>)
    ensures
        line_view(line@) == if app.mode is Filtering {
            seq![("filter: "@ + app.filter@ + "▌"@, colored(Color::Cyan))]
        } else {
            seq![(HELP@, dimmed())]
        },
{
    match app.mode {
        FilterMode::Filtering => one_span(
            text::cat3("filter: ", &app.filter, "▌"),
            color_style(Color::Cyan),
        ),
        FilterMode::Normal => one_span(HELP.to_owned(), dim_style()),
    }
}

/// The top line: what is watched, and whether it answers. `last_ok` is the
/// local time of the last successful poll.
pub fn title_line(host: &str, connected: bool, last_ok: Option<&str>) -> (line: Vec<Span>)
    ensures
        line_view(line@) == seq![
            ("vmtop"@, Style { bold: true, ..colored(Color::Green) }),
            ("  tikovm · "@ + host@ + " "@, dimmed()),
            if connected {
                (
                    "connected · last poll "@ + match last_ok {
                        Some(t) => t@,
                        None => ""@,
                    },
                    colored(Color::Green),
                )
            } else {
                (
                    "OFFLINE · "@ + match last_ok {
                        Some(t) => "last ok "@ + t@,
                        None => "no data yet"@,
                    },
                    Style { bold: true, ..colored(Color::Red) },
                )
            },
        ],
{
    let status = if connected {
        let t = match last_ok {
            Some(t) => t,
            None => "",
        };
        Span {
            text: text::cat2("connected · last poll ", t),
            style: color_style(Color::Green),
        }
    } else {
        let since = match last_ok {
            Some(t) => text::cat2("last ok ", t),
            None => "no data yet".to_owned(),
        };
        Span {
            text: text::cat2("OFFLINE · ", &since),
            style: Style { color: Some(Color::Red), bold: true, dim: false, reversed: false },
        }
    };
    let ghost last = (status.text@, status.style);
    let title = Style { color: Some(Color::Green), bold: true, dim: false, reversed: false };
    let line = vec![
        Span { text: "vmtop".to_owned(), style: title },
        Span { text: text::cat3("  tikovm · ", host, " "), style: dim_style() },
        status,
    ];
    proof {
        assert(line_view(line@) =~= seq![
            ("vmtop"@, title),
            ("  tikovm · "@ + host@ + " "@, dimmed()),
            last,
        ]);
    }
    line
}

/// The counts of the whole host.
pub open spec fn summary_text(view: VmView, refresh: Seq<char>) -> Seq<char> {
    let c = crate::vmtop::listing::tally_of(crate::vmtop::listing::states_of(view.all@));
    "VMs "@ + text::decimal(c.total) + ("   running "@ + text::decimal(c.started)) + (
    "   paused "@ + text::decimal(c.paused)) + ("   suspended "@ + text::decimal(c.suspended)) + (
    if c.other > 0 {
        "   other "@ + text::decimal(c.other)
    } else {
        seq![]
    }) + ("   projects "@ + text::decimal(
        crate::vmtop::view::projects_in(view.all@).len(),
    )) + ("   alloc cpu "@ + text::decimal(crate::vmtop::view::cpus_of(view.all@)) + "  mem "@
        + crate::vmtop::format::size_label(crate::vmtop::view::memory_of(view.all@))) + (
    "   refresh "@ + refresh)
}

/// The second line: the counts of the whole host. `refresh` says how often it
/// is polled.
pub fn summary_line(view: &VmView, refresh: &str) -> (line: Vec<Span>)
    requires
        view.alloc_fits(),
    ensures
        line_view(line@) == seq![(summary_text(*view, refresh@), dimmed())],
{
    let c = view.host_counts();
    let (cpu, mem) = view.host_alloc();
    let s = text::cat2("VMs ", &text::decimal_string(c.total as u64));
    let s = text::cat2(&s, &text::cat2("   running ", &text::decimal_string(c.started as u64)));
    let s = text::cat2(&s, &text::cat2("   paused ", &text::decimal_string(c.paused as u64)));
    let s = text::cat2(
        &s,
        &text::cat2("   suspended ", &text::decimal_string(c.suspended as u64)),
    );
    let other = if c.other > 0 {
        text::cat2("   other ", &text::decimal_string(c.other as u64))
    } else {
        String::new()
    };
    let s = text::cat2(&s, &other);
    let s = text::cat2(
        &s,
        &text::cat2("   projects ", &text::decimal_string(view.host_projects() as u64)),
    );
    let alloc = text::cat4(
        "   alloc cpu ",
        &text::decimal_string(cpu as u64),
        "  mem ",
        &crate::vmtop::format::memory_mib(mem),
    );
    let s = text::cat2(&s, &alloc);
    let s = text::cat2(&s, &text::cat2("   refresh ", refresh));
    one_span(s, dim_style())
}

} // verus!

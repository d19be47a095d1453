//! The state of the dashboard: the latest poll, the input mode, and what keys
//! do.

use vstd::prelude::*;

use crate::text;
use crate::vmtop::listing::SortOrder;
use crate::vmtop::model::Vm;
use crate::vmtop::view::VmView;

verus! {

/// How long to wait between redraws, in milliseconds.
pub const FRAME_MS: u64 = 100;

/// How many VMs a page moves by.
pub const PAGE: isize = 5;

/// What typing does.
#[derive(Debug, Clone, Copy, PartialEq, Eq, Structural)]
pub enum FilterMode {
    /// Keys are commands.
    Normal,
    /// Keys edit the filter.
    Filtering,
}

/// A key.
#[derive(Debug, Clone, Copy, PartialEq, Eq, Structural)]
pub enum Key {
    Char(char),
    Esc,
    Backspace,
    Enter,
    Up,
    Down,
    PageUp,
    PageDown,
    Home,
    End,
    Other,
}

/// What the poller found.
#[derive(Debug)]
pub struct Snapshot {
    /// The VMs of the last successful poll, kept when polls fail so that the
    /// screen does not go blank.
    pub vms: Option<Vec<Vm>>,
    /// When the last successful poll was, in nanoseconds since the Unix epoch.
    pub last_ok: Option<i64>,
    /// When the last poll was.
    pub last_attempt: Option<i64>,
    /// Why the last poll failed, if it did.
    pub error: Option<String>,
}

impl Snapshot {
    /// Nothing yet.
    pub fn fresh() -> (s: Snapshot)
        ensures
            s.vms is None,
            s.last_ok is None,
            s.last_attempt is None,
            s.error is None,
    {
        Snapshot { vms: None, last_ok: None, last_attempt: None, error: None }
    }

    /// Whether the last poll succeeded and there is something to show.
    pub fn connected(&self) -> (b: bool)
        ensures
            b == (self.vms is Some && self.error is None),
    {
        self.vms.is_some() && self.error.is_none()
    }

    /// Takes over what a poll came to.
    pub fn polled(&mut self, now_ns: i64, outcome: Result<Vec<Vm>, String>)
        ensures
            final(self).last_attempt == Some(now_ns),
            match outcome {
                Ok(vms) => final(self).vms == Some(vms) && final(self).last_ok == Some(now_ns)
                    && final(self).error is None,
                Err(why) => final(self).vms == old(self).vms && final(self).last_ok == old(
                    self,
                ).last_ok && final(self).error == Some(why),
            },
    {
        self.last_attempt = Some(now_ns);
        match outcome {
            Ok(vms) => {
                self.vms = Some(vms);
                self.last_ok = Some(now_ns);
                self.error = None;
            },
            Err(why) => {
                self.error = Some(why);
            },
        }
    }
}

/// A text without a prefix, however often it begins with it.
pub open spec fn without_prefix(s: Seq<char>, prefix: Seq<char>) -> Seq<char>
    decreases s.len(),
{
    if prefix.len() == 0 || !text::has_prefix(s, prefix) {
        s
    } else {
        without_prefix(s.skip(prefix.len() as int), prefix)
    }
}

/// A text without slashes at its end.
pub open spec fn without_slashes(s: Seq<char>) -> Seq<char>
    decreases s.len(),
{
    if s.len() == 0 || s.last() != '/' {
        s
    } else {
        without_slashes(s.drop_last())
    }
}

/// Strips a prefix as often as a text begins with it.
fn strip_all(s: &str, prefix: &str) -> (r: String)
    requires
        prefix@.len() > 0,
    ensures
        r@ == without_prefix(s@, prefix@),
{
    let mut rest = s.to_owned();
    loop
        invariant
            prefix@.len() > 0,
            without_prefix(s@, prefix@) == without_prefix(rest@, prefix@),
        decreases rest@.len(),
    {
        match text::strip_prefix(&rest, prefix) {
            Some(tail) => {
                rest = tail;
            },
            None => {
                return rest;
            },
        }
    }
}

/// Strips the slashes at the end of a text.
pub fn trim_slashes(s: &str) -> (r: String)
    ensures
        r@ == without_slashes(s@),
{
    let chars = text::chars_of(s);
    let mut n: usize = chars.len();
    proof {
        assert(s@.take(s@.len() as int) =~= s@);
    }
    while n > 0 && chars[n - 1] == '/'
        invariant
            chars@ == s@,
            n <= chars@.len(),
            without_slashes(s@) == without_slashes(s@.take(n as int)),
        decreases n,
    {
        proof {
            assert(s@.take(n as int).drop_last() =~= s@.take(n as int - 1));
        }
        n -= 1;
    }
    let r = text::string_of(&chars.as_slice()[0..n]);
    proof {
        assert(r@ =~= s@.take(n as int));
    }
    r
}

/// The host that is watched, without the scheme, for the title.
pub fn host_disp(base_url: &str) -> (s: String)
    ensures
        s@ == without_slashes(
            without_prefix(without_prefix(base_url@, "http://"@), "https://"@),
        ),
{
    proof {
        reveal_strlit("http://");
        reveal_strlit("https://");
        assert("http://"@.len() == 7);
        assert("https://"@.len() == 8);
    }
    trim_slashes(&strip_all(&strip_all(base_url, "http://"), "https://"))
}

/// Where a path of the API is.
pub fn api_url(base_url: &str, path: &str) -> (s: String)
    ensures
        s@ == without_slashes(base_url@) + path@,
{
    text::cat2(&trim_slashes(base_url), path)
}

/// How often to poll, within bounds, in milliseconds.
pub fn refresh_interval_ms(asked: u64) -> (ms: u64)
    ensures
        ms == if asked < 100 {
            100
        } else if asked > 30_000 {
            30_000
        } else {
            asked
        },
{
    if asked < 100 {
        100
    } else if asked > 30_000 {
        30_000
    } else {
        asked
    }
}

/// The API token: the one that was given, else the one of the environment. A
/// blank one counts as none.
pub fn choose_token(given: Option<String>, environment: Option<String>) -> (token: Option<String>)
    ensures
        ({
            let pick = if given is Some {
                given
            } else {
                environment
            };
            token == if pick is Some && text::trimmed(pick->0@).len() > 0 {
                pick
            } else {
                None
            }
        }),
{
    let pick = match given {
        Some(t) => Some(t),
        None => environment,
    };
    match pick {
        Some(t) => if text::trim(&t).as_str().unicode_len() > 0 {
            Some(t)
        } else {
            None
        },
        None => None,
    }
}

/// The dashboard.
#[derive(Debug)]
pub struct App {
    pub view: VmView,
    pub mode: FilterMode,
    /// The filter as it is typed.
    pub filter: String,
    pub quit: bool,
}

/// Whether only the view differs.
pub open spec fn only_view(before: App, after: App) -> bool {
    after.mode == before.mode && after.filter == before.filter && after.quit == before.quit
}

/// Whether a view shows the same VMs in the same way, but for the filter.
pub open spec fn refiltered(before: VmView, after: VmView, filter: Seq<char>) -> bool {
    &&& after.wf()
    &&& after.filter@ == filter
    &&& after.all == before.all
    &&& after.grouped == before.grouped
    &&& after.sort == before.sort
    &&& if filter == before.filter@ {
        after == before
    } else {
        after.reshown(before)
    }
}

/// Whether the selection of a view was moved.
pub open spec fn moved_by(before: VmView, after: VmView, delta: int) -> bool {
    let vm_rows = crate::vmtop::view::vm_rows_of(before.rows@);
    if vm_rows.len() == 0 {
        after == before
    } else {
        crate::vmtop::view::selected(
            before,
            after,
            vm_rows[crate::vmtop::view::moved(
                crate::vmtop::view::place_of(vm_rows, before.selected_row),
                delta,
                vm_rows.len(),
            ) as int],
        )
    }
}

/// What a key does while the filter is edited.
pub open spec fn typed(before: App, after: App, key: Key) -> bool {
    match key {
        Key::Esc => after.mode is Normal && after.filter@.len() == 0 && after.quit == before.quit
            && refiltered(before.view, after.view, seq![]),
        Key::Char(c) => after.mode is Filtering && after.filter@ == before.filter@.push(c)
            && after.quit == before.quit && refiltered(before.view, after.view, after.filter@),
        Key::Backspace => after.mode is Filtering && after.filter@ == (if before.filter@.len()
            > 0 {
            before.filter@.drop_last()
        } else {
            before.filter@
        }) && after.quit == before.quit && refiltered(before.view, after.view, after.filter@),
        Key::Enter => after == (App { mode: FilterMode::Normal, ..before }),
        _ => after == before,
    }
}

/// What a key does as a command.
pub open spec fn commanded(before: App, after: App, key: Key, ctrl: bool) -> bool {
    let b = before.view;
    let a = after.view;
    match key {
        Key::Char(c) => if (c == 'c' && ctrl) || c == 'q' {
            after == (App { quit: true, ..before })
        } else if c == 'j' {
            only_view(before, after) && moved_by(b, a, 1)
        } else if c == 'k' {
            only_view(before, after) && moved_by(b, a, -1)
        } else if c == 'g' {
            only_view(before, after) && jumped(b, a, true)
        } else if c == 'G' {
            only_view(before, after) && jumped(b, a, false)
        } else if c == 'f' {
            only_view(before, after) && a.reshown(b) && a.all == b.all && a.filter == b.filter
                && a.sort == b.sort && a.grouped == !b.grouped
        } else if c == 's' {
            only_view(before, after) && a.reshown(b) && a.all == b.all && a.filter == b.filter
                && a.grouped == b.grouped && a.sort == (match b.sort {
                SortOrder::State => SortOrder::Name,
                SortOrder::Name => SortOrder::State,
            })
        } else if c == '/' {
            a == b && after.mode is Filtering && after.filter@.len() == 0 && after.quit
                == before.quit
        } else {
            after == before
        },
        Key::Down => only_view(before, after) && moved_by(b, a, 1),
        Key::Up => only_view(before, after) && moved_by(b, a, -1),
        Key::PageDown => only_view(before, after) && moved_by(b, a, PAGE as int),
        Key::PageUp => only_view(before, after) && moved_by(b, a, -(PAGE as int)),
        Key::Home => only_view(before, after) && jumped(b, a, true),
        Key::End => only_view(before, after) && jumped(b, a, false),
        _ => after == before,
    }
}

/// Whether the selection of a view was moved to an end of the list.
pub open spec fn jumped(before: VmView, after: VmView, to_first: bool) -> bool {
    let vm_rows = crate::vmtop::view::vm_rows_of(before.rows@);
    if vm_rows.len() == 0 {
        after == before
    } else {
        crate::vmtop::view::selected(
            before,
            after,
            if to_first {
                vm_rows[0]
            } else {
                vm_rows.last()
            },
        )
    }
}

impl App {
    /// A dashboard that shows nothing yet.
    pub fn new(grouped: bool, sort: SortOrder) -> (app: App)
        ensures
            app.view.wf(),
            app.view.all@.len() == 0,
            app.view.grouped == grouped,
            app.view.sort == sort,
            app.view.filter@.len() == 0,
            app.view.rows@.len() == 0,
            app.view.selected_id is None,
            app.view.selected_row is None,
            app.mode is Normal,
            app.filter@.len() == 0,
            !app.quit,
    {
        App {
            view: VmView::new(grouped, sort),
            mode: FilterMode::Normal,
            filter: String::new(),
            quit: false,
        }
    }

    /// Shows the VMs of a poll.
    pub fn refresh(&mut self, vms: Vec<Vm>)
        ensures
            final(self).view.reshown(old(self).view),
            final(self).view.all == vms,
            final(self).view.grouped == old(self).view.grouped,
            final(self).view.sort == old(self).view.sort,
            final(self).view.filter == old(self).view.filter,
            only_view(*old(self), *final(self)),
    {
        self.view.update(vms);
    }

    /// A key while the filter is edited.
    fn type_key(&mut self, key: Key)
        requires
            old(self).view.wf(),
        ensures
            final(self).view.wf(),
            old(self).mode is Filtering ==> typed(*old(self), *final(self), key),
    {
        match key {
            Key::Esc => {
                self.mode = FilterMode::Normal;
                self.filter = String::new();
                self.view.clear_filter();
                proof {
                    if old(self).view.filter@.len() == 0 {
                        assert(old(self).view.filter@ =~= seq![]);
                    }
                    assert(self.view.filter@ =~= seq![]);
                }
            },
            Key::Char(c) => {
                self.filter.push(c);
                self.view.set_filter(&self.filter);
            },
            Key::Backspace => {
                let chars = text::chars_of(&self.filter);
                let n: usize = chars.len();
                if n > 0 {
                    let shorter = text::string_of(&chars.as_slice()[0..n - 1]);
                    proof {
                        assert(shorter@ =~= self.filter@.drop_last());
                    }
                    self.filter = shorter;
                }
                self.view.set_filter(&self.filter);
            },
            Key::Enter => {
                self.mode = FilterMode::Normal;
            },
            _ => {},
        }
    }

    /// A key as a command. Tells whether a poll is asked for.
    fn command_key(&mut self, key: Key, ctrl: bool) -> (poll: bool)
        requires
            old(self).view.wf(),
        ensures
            final(self).view.wf(),
            commanded(*old(self), *final(self), key, ctrl),
            poll == (key == Key::Char('r')),
    {
        match key {
            Key::Char(c) => {
                if (c == 'c' && ctrl) || c == 'q' {
                    self.quit = true;
                } else if c == 'j' {
                    self.view.move_selected(1);
                } else if c == 'k' {
                    self.view.move_selected(-1);
                } else if c == 'g' {
                    self.view.jump_first();
                } else if c == 'G' {
                    self.view.jump_last();
                } else if c == 'f' {
                    self.view.toggle_grouped();
                } else if c == 's' {
                    let sort = match self.view.sort {
                        SortOrder::State => SortOrder::Name,
                        SortOrder::Name => SortOrder::State,
                    };
                    self.view.set_sort(sort);
                } else if c == '/' {
                    self.filter = String::new();
                    self.mode = FilterMode::Filtering;
                } else if c == 'r' {
                    return true;
                }
            },
            Key::Down => {
                self.view.move_selected(1);
            },
            Key::Up => {
                self.view.move_selected(-1);
            },
            Key::PageDown => {
                self.view.page_selected(PAGE);
            },
            Key::PageUp => {
                self.view.page_selected(-PAGE);
            },
            Key::Home => {
                self.view.jump_first();
            },
            Key::End => {
                self.view.jump_last();
            },
            _ => {},
        }
        false
    }

    /// Does what a key asks for. Tells whether a poll is asked for.
    pub fn on_key(&mut self, key: Key, ctrl: bool) -> (poll: bool)
        requires
            old(self).view.wf(),
        ensures
            final(self).view.wf(),
            poll == (old(self).mode is Normal && key == Key::Char('r')),
            if old(self).mode is Filtering {
                typed(*old(self), *final(self), key)
            } else {
                commanded(*old(self), *final(self), key, ctrl)
            },
    {
        match self.mode {
            FilterMode::Filtering => {
                self.type_key(key);
                false
            },
            FilterMode::Normal => self.command_key(key, ctrl),
        }
    }

    /// The filter that is shown above the list.
    pub fn filter_indicator(&self) -> (s: String)
        ensures
            s@ == if self.mode is Filtering {
                self.filter@
            } else {
                self.view.filter@
            },
    {
        match self.mode {
            FilterMode::Filtering => self.filter.clone(),
            FilterMode::Normal => self.view.filter.clone(),
        }
    }
}

/// What goes wrong with the dashboard.
#[derive(Debug)]
pub enum Error {
    /// A request failed without an answer, or the answer could not be read.
    Api(String),
    /// The host answered with a failure.
    Http { status: u16, body: String },
    /// The terminal failed.
    Io(String),
    /// There is no token.
    MissingToken,
}

/// The full sentence that an error is reported with.
pub open spec fn error_text(e: Error) -> Seq<char> {
    match e {
        Error::Api(m) => "api request failed: "@ + m@,
        Error::Http { status, body } => "hostd returned "@ + text::decimal(status as nat) + ": "@
            + body@,
        Error::Io(m) => "io error: "@ + m@,
        Error::MissingToken => "missing API token: set TIKOVM_HOSTD_API_TOKEN or pass --token"@,
    }
}

impl Error {
    /// The full sentence that the error is reported with.
    pub fn message(&self) -> (s: String)
        ensures
            s@ == error_text(*self),
    {
        match self {
            Error::Api(m) => text::cat2("api request failed: ", m),
            Error::Http { status, body } => text::cat4(
                "hostd returned ",
                &text::decimal_string(*status as u64),
                ": ",
                body,
            ),
            Error::Io(m) => text::cat2("io error: ", m),
            Error::MissingToken =>
                "missing API token: set TIKOVM_HOSTD_API_TOKEN or pass --token".to_owned(),
        }
    }
}

} // verus!

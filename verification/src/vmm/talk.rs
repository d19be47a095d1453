//! What is said to Firecracker and to guest agents, and what their answers mean.

use vstd::prelude::*;
use vstd::utf8::encode_utf8;

use crate::storage::laws::no_slash;
use crate::text;
use crate::vmm::fc_api::{body_len_of, header_ends, length_in, reply_of, request_of, status_of};
use crate::vmm::firecracker::{
    distinct_workloads, is_workload, lemma_workload_index, workload_index, FcVmEntry,
};
use crate::vmm::guest::{
    action_for, after_event, env_pairs, greets, pair_views, starts, table_taken, workload_inserted,
    workload_removed, words_taken, EventAction,
};
use crate::vmm::vsock::{GuestEvent, GuestRequest, GuestWorkloadInfo};
use crate::vmm::workload::{exited, failed, running, Workload};

verus! {

// ---------------------------------------------------------------------------
// Firecracker
// ---------------------------------------------------------------------------

/// Whether `part` stands in `whole`.
#[verifier::opaque]
pub open spec fn stands_in(part: Seq<char>, whole: Seq<char>) -> bool {
    exists|at: int|
        0 <= at <= whole.len() - part.len() && #[trigger] whole.subrange(at, at + part.len())
            == part
}

/// A request names its method and its path on its first line, announces exactly
/// as many bytes as its body has, and ends with the empty line and that body.
pub proof fn law_request_announces_its_body(
    method: Seq<char>,
    path: Seq<char>,
    body: Seq<char>,
)
    ensures
        ({
            let request = request_of(method, path, body);
            let head = request.take(request.len() - body.len());
            &&& text::has_prefix(request, method + " "@ + path + " HTTP/1.1\r\n"@)
            &&& request == head + body
            &&& text::has_prefix(head.reverse(), "\r\n\r\n"@.reverse())
            &&& stands_in(
                "\r\nContent-Length: "@ + text::decimal(encode_utf8(body).len()) + "\r\n"@,
                head,
            )
        }),
{
    let request = request_of(method, path, body);
    let head = request.take(request.len() - body.len());
    let middle =
        " HTTP/1.1\r\nHost: localhost\r\nContent-Type: application/json\r\nContent-Length: "@;
    let number = text::decimal(encode_utf8(body).len());
    let end = "\r\nConnection: close\r\n\r\n"@;
    reveal_strlit(" ");
    reveal_strlit(" HTTP/1.1\r\n");
    reveal_strlit(
        " HTTP/1.1\r\nHost: localhost\r\nContent-Type: application/json\r\nContent-Length: ",
    );
    reveal_strlit("\r\nConnection: close\r\n\r\n");
    reveal_strlit("\r\nContent-Length: ");
    reveal_strlit("\r\n");
    reveal_strlit("\r\n\r\n");
    let line = method + " "@ + path + " HTTP/1.1\r\n"@;
    assert(request.take(line.len() as int) =~= line);
    assert(head =~= method + " "@ + path + middle + number + end);
    assert(request =~= head + body);
    assert(head.reverse().take(4) =~= "\r\n\r\n"@.reverse());
    reveal(stands_in);
    let part = "\r\nContent-Length: "@ + number + "\r\n"@;
    let at = (method + " "@ + path + middle).len() - "\r\nContent-Length: "@.len();
    assert(head.subrange(at, at + part.len()) =~= part);
}

/// Whether a header is complete is decided by its last four bytes: it ends with
/// an empty line.
pub proof fn law_header_ends_with_empty_line(bytes: Seq<u8>)
    ensures
        header_ends(bytes) <==> bytes.len() >= 4 && bytes.skip(bytes.len() - 4) == seq![
            13u8,
            10u8,
            13u8,
            10u8,
        ],
{
    if bytes.len() >= 4 {
        let tail = bytes.skip(bytes.len() - 4);
        let end = seq![13u8, 10u8, 13u8, 10u8];
        assert(tail[0] == bytes[bytes.len() - 4]);
        assert(tail[1] == bytes[bytes.len() - 3]);
        assert(tail[2] == bytes[bytes.len() - 2]);
        assert(tail[3] == bytes[bytes.len() - 1]);
        if header_ends(bytes) {
            assert(tail =~= end);
        }
        if tail == end {
            assert(tail[0] == 13 && tail[1] == 10 && tail[2] == 13 && tail[3] == 10);
        }
    }
}

/// The status of a reply is the number that its first line gives second.
pub proof fn law_status_is_second_word(lines: Seq<Seq<char>>, status: u16)
    requires
        lines.len() > 0,
        text::words(lines[0]).len() >= 2,
        text::words(lines[0])[1] == text::decimal(status as nat),
    ensures
        status_of(lines) == status,
{
    text::lemma_read_decimal(status as nat, u16::MAX as nat);
}

/// A reply without a first line, or with no number where the status should be,
/// has the status 0, which is no success.
pub proof fn law_unreadable_reply_is_no_success(
    lines: Seq<Seq<char>>,
    method: Seq<char>,
    path: Seq<char>,
    body: Seq<char>,
    fault: Result<Option<Seq<char>>, Seq<char>>,
)
    requires
        lines.len() == 0 || text::words(lines[0]).len() < 2,
    ensures
        status_of(lines) == 0,
        reply_of(method, path, status_of(lines), body, fault) is Err,
{
}

/// The first header line that announces a length decides how much body is read.
pub proof fn law_first_announced_length_counts(lines: Seq<Seq<char>>, at: int)
    requires
        0 <= at <= lines.len(),
        at < lines.len() ==> length_in(lines[at]) is Some,
        forall|k: int| 0 <= k < at ==> length_in(#[trigger] lines[k]) is None,
    ensures
        body_len_of(lines) == if at < lines.len() {
            length_in(lines[at])->0
        } else {
            0
        },
    decreases lines.len(),
{
    if lines.len() > 0 && at > 0 {
        assert(length_in(lines[0]) is None);
        let rest = lines.skip(1);
        assert(forall|k: int| 0 <= k < rest.len() ==> rest[k] == #[trigger] lines[k + 1]);
        assert forall|k: int| 0 <= k < at - 1 implies length_in(#[trigger] rest[k]) is None by {
            assert(rest[k] == lines[k + 1]);
        }
        law_first_announced_length_counts(rest, at - 1);
    }
}

/// A header line announces the length that it gives as a number.
pub proof fn law_announced_length_is_read(line: Seq<char>, rest: Seq<char>, n: nat)
    requires
        text::lowered(line) == "content-length:"@ + rest,
        text::trimmed(rest) == text::decimal(n),
        n <= usize::MAX,
    ensures
        length_in(line) == Some(n),
{
    let low = text::lowered(line);
    let prefix = "content-length:"@;
    assert(low.take(prefix.len() as int) =~= prefix);
    assert(low.skip(prefix.len() as int) =~= rest);
    text::lemma_read_decimal(n, usize::MAX as nat);
}

/// A reply is a success exactly if its status is 2xx, and then gives its body;
/// otherwise the error tells the request, and Firecracker's own words if there
/// are any.
pub proof fn law_reply_goes_by_status(
    method: Seq<char>,
    path: Seq<char>,
    status: u16,
    body: Seq<char>,
    fault: Result<Option<Seq<char>>, Seq<char>>,
)
    ensures
        200 <= status <= 299 ==> reply_of(method, path, status, body, fault) == Ok::<
            Seq<char>,
            Seq<char>,
        >(body),
        status < 200 || status > 299 ==> reply_of(method, path, status, body, fault) is Err,
        (status < 200 || status > 299) && fault is Ok && fault->Ok_0 is Some ==> reply_of(
            method,
            path,
            status,
            body,
            fault,
        )->Err_0 == "FC API "@ + method + " "@ + path + ": "@ + fault->Ok_0->0,
{
}

// ---------------------------------------------------------------------------
// Guest agents
// ---------------------------------------------------------------------------

/// A workload is started as it was asked for: under its name, with its command
/// word for word, its variables in order and its directory.
pub proof fn law_workload_is_started_as_asked(req: GuestRequest, w: Workload)
    requires
        starts(req, w),
    ensures
        req is Start,
        req->Start_workload_id@ == w.workload_id.0@,
        req->cmd@.len() == w.spec.cmd@.len(),
        forall|k: int|
            0 <= k < w.spec.cmd@.len() ==> (#[trigger] req->cmd@[k])@ == w.spec.cmd@[k]@,
        req->env@.len() == w.spec.env@.len(),
        forall|k: int|
            0 <= k < w.spec.env@.len() ==> (#[trigger] req->env@[k]).0@ == w.spec.env@[k].key@
                && req->env@[k].1@ == w.spec.env@[k].value@,
        text::opt_view(req->cwd) == text::opt_view(w.spec.cwd),
{
    assert(text::views(req->cmd@).len() == text::views(w.spec.cmd@).len());
    assert forall|k: int| 0 <= k < w.spec.cmd@.len() implies (#[trigger] req->cmd@[k])@
        == w.spec.cmd@[k]@ by {
        assert(text::views(req->cmd@)[k] == text::views(w.spec.cmd@)[k]);
    }
    assert(pair_views(req->env@).len() == env_pairs(w.spec.env@).len());
    assert forall|k: int| 0 <= k < w.spec.env@.len() implies (#[trigger] req->env@[k]).0@
        == w.spec.env@[k].key@ && req->env@[k].1@ == w.spec.env@[k].value@ by {
        assert(pair_views(req->env@)[k] == env_pairs(w.spec.env@)[k]);
    }
}

/// A new connection makes up for what was missed before it sets the idle
/// detector up, which it does exactly for VMs with a policy, with the command
/// and the interval of the policy.
pub proof fn law_connection_catches_up_first(requests: Seq<GuestRequest>, e: FcVmEntry)
    requires
        greets(requests, e),
    ensures
        requests.len() > 0 && requests[0] is List,
        e.instance.vm_config.auto_suspend is None <==> requests.len() == 1,
        e.instance.vm_config.auto_suspend is Some ==> ({
            let c = e.instance.vm_config.auto_suspend->0;
            &&& requests.len() == 2
            &&& requests[1] is ConfigureAutoSuspend
            &&& requests[1]->check_interval_secs == c.check_interval_secs
            &&& requests[1]->idle_check_cmd@.len() == c.idle_check_cmd@.len()
            &&& forall|k: int|
                0 <= k < c.idle_check_cmd@.len() ==> (#[trigger] requests[1]->idle_check_cmd@[k])@
                    == c.idle_check_cmd@[k]@
        }),
{
    if e.instance.vm_config.auto_suspend is Some {
        let c = e.instance.vm_config.auto_suspend->0;
        let got = requests[1]->idle_check_cmd@;
        assert(text::views(got).len() == text::views(c.idle_check_cmd@).len());
        assert forall|k: int| 0 <= k < c.idle_check_cmd@.len() implies (#[trigger] got[k])@
            == c.idle_check_cmd@[k]@ by {
            assert(text::views(got)[k] == text::views(c.idle_check_cmd@)[k]);
        }
    }
}

/// Where a workload is found under its own name.
proof fn lemma_found(workloads: Seq<Workload>, k: int)
    requires
        distinct_workloads(workloads),
        0 <= k < workloads.len(),
    ensures
        workload_index(workloads, workloads[k].workload_id.0@) == k,
{
    let id = workloads[k].workload_id.0@;
    lemma_workload_index(workloads, id);
    let at = workload_index(workloads, id) as int;
    assert(is_workload(workloads[k], id));
    if at < k {
        assert(workloads[at].workload_id.0@ == workloads[k].workload_id.0@);
    }
}

/// An event about one workload changes that one, as the event says, and no
/// other; output and idleness change none.
pub proof fn law_events_reach_their_workload(
    workloads: Seq<Workload>,
    event: GuestEvent,
    now: u64,
    k: int,
)
    requires
        distinct_workloads(workloads),
        0 <= k < workloads.len(),
        !(event is ListResult),
    ensures
        after_event(workloads, event, now).len() == workloads.len(),
        ({
            let w = workloads[k];
            let name = w.workload_id.0@;
            after_event(workloads, event, now)[k] == match event {
                GuestEvent::Started { workload_id, pid } => if workload_id@ == name {
                    running(w, Some(pid), now)
                } else {
                    w
                },
                GuestEvent::Exited { workload_id, exit_code, signal } => if workload_id@ == name {
                    exited(w, exit_code, signal, now)
                } else {
                    w
                },
                GuestEvent::Error { workload_id: Some(id), message: _ } => if id@ == name {
                    failed(w, now)
                } else {
                    w
                },
                _ => w,
            }
        }),
{
    lemma_found(workloads, k);
    match event {
        GuestEvent::Started { workload_id, pid: _ } => {
            lemma_workload_index(workloads, workload_id@);
        },
        GuestEvent::Exited { workload_id, exit_code: _, signal: _ } => {
            lemma_workload_index(workloads, workload_id@);
        },
        GuestEvent::Error { workload_id: Some(id), message: _ } => {
            lemma_workload_index(workloads, id@);
        },
        _ => {},
    }
}

/// What a table says last of a workload by its name, if it lists it once, is
/// taken: one that exited has exited, with the code and the signal that the
/// table gives, and one that runs is running. A workload that the table does not
/// list stays as it is.
pub proof fn law_table_says_how_workloads_are(
    workloads: Seq<Workload>,
    infos: Seq<GuestWorkloadInfo>,
    now: u64,
    k: int,
    m: int,
)
    requires
        distinct_workloads(workloads),
        0 <= k < workloads.len(),
        0 <= m <= infos.len(),
        m < infos.len() ==> infos[m].workload_id@ == workloads[k].workload_id.0@,
        forall|j: int|
            0 <= j < infos.len() && j != m ==> (#[trigger] infos[j]).workload_id@
                != workloads[k].workload_id.0@,
    ensures
        ({
            let w = workloads[k];
            let after = table_taken(workloads, infos, now)[k];
            let listed = m < infos.len();
            &&& !listed ==> after == w
            &&& listed && infos[m].state@ == "exited"@ && (w.state is Starting
                || w.state is Running) ==> {
                &&& after.state is Exited || after.state is Stopped
                &&& after.exit_code == infos[m].exit_code
                &&& after.signal == infos[m].signal
                &&& after.finished_at == Some(now)
            }
            &&& listed && infos[m].state@ == "running"@ && w.state is Starting ==> {
                &&& after.state is Running
                &&& after.started_at == Some(now)
            }
            &&& listed && infos[m].state@ == "running"@ && !(w.state is Starting) ==> after == w
        }),
{
    reveal_strlit("running");
    reveal_strlit("exited");
    assert("running"@.len() == 7);
    assert("exited"@.len() == 6);
    crate::vmm::guest::law_table_is_taken_by_name(workloads, infos, now, k);
    lemma_words(workloads[k], infos, now, m);
}

/// What a table says of a workload that it lists once at most.
proof fn lemma_words(w: Workload, infos: Seq<GuestWorkloadInfo>, now: u64, m: int)
    requires
        0 <= m <= infos.len(),
        m < infos.len() ==> infos[m].workload_id@ == w.workload_id.0@,
        forall|j: int|
            0 <= j < infos.len() && j != m ==> (#[trigger] infos[j]).workload_id@
                != w.workload_id.0@,
    ensures
        words_taken(w, infos, now) == if m < infos.len() {
            crate::vmm::guest::word_taken(w, infos[m], now)
        } else {
            w
        },
    decreases infos.len(),
{
    if infos.len() > 0 {
        let rest = infos.drop_last();
        if m >= rest.len() {
            lemma_words(w, rest, now, rest.len() as int);
        } else {
            lemma_words(w, rest, now, m);
        }
    }
}

/// A workload that was registered is found under its name, in place of one of
/// the same name, and every other workload stays; one that was forgotten is not
/// found any more.
pub proof fn law_registered_workload_is_found(workloads: Seq<Workload>, w: Workload)
    requires
        distinct_workloads(workloads),
    ensures
        ({
            let id = w.workload_id.0@;
            let more = workload_inserted(workloads, w);
            let less = workload_removed(workloads, id);
            &&& workload_index(more, id) < more.len()
            &&& more[workload_index(more, id) as int] == w
            &&& forall|k: int|
                0 <= k < workloads.len() && (#[trigger] workloads[k]).workload_id.0@ != id
                    ==> k < more.len() && more[k] == workloads[k]
            &&& forall|k: int|
                0 <= k < less.len() ==> (#[trigger] less[k]).workload_id.0@ != id
            &&& forall|k: int|
                0 <= k < workloads.len() && (#[trigger] workloads[k]).workload_id.0@ != id
                    ==> less.contains(workloads[k])
        }),
{
    let id = w.workload_id.0@;
    let at = workload_index(workloads, id) as int;
    lemma_workload_index(workloads, id);
    let more = workload_inserted(workloads, w);
    let less = workload_removed(workloads, id);
    lemma_workload_index(more, id);
    assert(is_workload(more[at], id));
    let found = workload_index(more, id) as int;
    if found < at {
        assert(more[found] == workloads[found]);
        assert(!is_workload(workloads[found], id));
    }
    assert(found == at);
    assert forall|k: int| 0 <= k < less.len() implies (#[trigger] less[k]).workload_id.0@ != id by {
        if at < workloads.len() {
            if k < at {
                assert(less[k] == workloads[k]);
                assert(!is_workload(workloads[k], id));
            } else {
                assert(less[k] == workloads[k + 1]);
                assert(workloads[at].workload_id.0@ != workloads[k + 1].workload_id.0@);
            }
        } else {
            assert(!is_workload(workloads[k], id));
        }
    }
    assert forall|k: int|
        0 <= k < workloads.len() && (#[trigger] workloads[k]).workload_id.0@
            != id implies less.contains(workloads[k]) by {
        if at < workloads.len() && k > at {
            assert(less[k - 1] == workloads[k]);
        } else {
            assert(less[k] == workloads[k]);
        }
    }
}

/// Output goes to the log of the workload it came from, unchanged, and no two
/// workloads share a log.
pub proof fn law_output_goes_to_its_own_log(
    workloads_dir: Seq<char>,
    a: EventAction,
    from_a: GuestEvent,
    b: EventAction,
    from_b: GuestEvent,
)
    requires
        from_a is Output,
        from_b is Output,
        action_for(a, from_a, workloads_dir),
        action_for(b, from_b, workloads_dir),
        from_a->Output_workload_id@ != from_b->Output_workload_id@,
        no_slash(from_a->Output_workload_id@) && from_a->Output_workload_id@.len() > 0,
        no_slash(from_b->Output_workload_id@) && from_b->Output_workload_id@.len() > 0,
    ensures
        a is AppendLog && b is AppendLog,
        a->path@ != b->path@,
        a->stream == from_a->stream,
        a->data == from_a->data,
{
    let x = from_a->Output_workload_id@;
    let y = from_b->Output_workload_id@;
    let s = x + ".log"@;
    let t = y + ".log"@;
    assert(s[0] == x[0] && t[0] == y[0]);
    assert(x[0] != '/' && y[0] != '/');
    let p = a->path@;
    if p == b->path@ {
        assert(p.len() == text::path_joined(workloads_dir, t).len());
        assert(s.len() == t.len());
        assert(p.skip(p.len() - s.len()) =~= s);
        assert(p.skip(p.len() - t.len()) =~= t);
        assert(s.take(x.len() as int) =~= x);
        assert(t.take(y.len() as int) =~= y);
    }
}

/// Only output is logged, only idleness is reported on, and nothing else asks
/// for anything.
pub proof fn law_events_ask_for_little(a: EventAction, event: GuestEvent, workloads_dir: Seq<char>)
    requires
        action_for(a, event, workloads_dir),
    ensures
        a is AppendLog <==> event is Output,
        a is ReportIdle <==> event is Idle,
        a is Nothing <==> !(event is Output) && !(event is Idle),
{
}

} // verus!

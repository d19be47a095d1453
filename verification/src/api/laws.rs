//! What a failed request is answered, by whose fault it is.

use vstd::prelude::*;

use crate::api::error::status_of;
use crate::error::{error_text, Error};
use crate::text;
use crate::vmm::state::state_name;
use crate::vmm::talk::stands_in;

verus! {

/// What is not there is answered with 404, what conflicts with how things stand
/// with 409, what can never be with 400; everything else is the host's own
/// failure, 500.
pub proof fn law_failures_are_answered_by_fault(e: Error)
    ensures
        e is VmNotFound || e is WorkloadNotFound || e is PortNotExposed ==> status_of(e) == 404,
        e is PortAlreadyExposed || e is InvalidStateTransition ==> status_of(e) == 409,
        e is InvalidPort || e is InvalidImage ==> status_of(e) == 400,
        e is Io || e is Json || e is Lock || e is TracingSubscriberFilterParse || e is Vmm || e is Net
            || e is Storage || e is ProxyToken || e is MissingApiToken ==> status_of(e) == 500,
{
}

proof fn lemma_stands_in(a: Seq<char>, b: Seq<char>, c: Seq<char>)
    ensures
        stands_in(b, a + b + c),
        stands_in(b, a + b),
{
    reveal(stands_in);
    let at = a.len() as int;
    assert((a + b + c).subrange(at, at + b.len()) =~= b);
    assert((a + b).subrange(at, at + b.len()) =~= b);
}

/// What a failure is about can be read in its message: which VM, which workload,
/// which port, which image and which states.
pub proof fn law_failures_say_what_they_are_about(e: Error)
    ensures
        match e {
            Error::VmNotFound(id) => stands_in(id@, error_text(e)),
            Error::WorkloadNotFound(id) => stands_in(id@, error_text(e)),
            Error::InvalidImage(image) => stands_in(image@, error_text(e)),
            Error::PortAlreadyExposed { vm_id, port } => stands_in(vm_id@, error_text(e))
                && stands_in(text::decimal(port as nat), error_text(e)),
            Error::PortNotExposed { vm_id, port } => stands_in(vm_id@, error_text(e)) && stands_in(
                text::decimal(port as nat),
                error_text(e),
            ),
            Error::InvalidPort(port) => stands_in(text::decimal(port as nat), error_text(e)),
            Error::InvalidStateTransition { from, to } => stands_in(
                state_name(from) + " -> "@ + state_name(to),
                error_text(e),
            ),
            Error::Io(m) => stands_in(m@, error_text(e)),
            Error::Json(m) => stands_in(m@, error_text(e)),
            Error::Lock(m) => stands_in(m@, error_text(e)),
            Error::TracingSubscriberFilterParse(m) => stands_in(m@, error_text(e)),
            Error::Vmm(m) => stands_in(m@, error_text(e)),
            Error::Net(m) => stands_in(m@, error_text(e)),
            Error::Storage(m) => stands_in(m@, error_text(e)),
            Error::ProxyToken(m) => stands_in(m@, error_text(e)),
            Error::MissingApiToken => true,
        },
{
    let none = Seq::<char>::empty();
    match e {
        Error::VmNotFound(id) => {
            lemma_stands_in("vm "@, id@, " not found"@);
        },
        Error::WorkloadNotFound(id) => {
            lemma_stands_in("workload "@, id@, " not found"@);
        },
        Error::InvalidImage(image) => {
            lemma_stands_in("invalid VM image: "@, image@, none);
        },
        Error::PortAlreadyExposed { vm_id, port } => {
            let number = text::decimal(port as nat);
            let middle = " is already exposed on vm "@;
            lemma_stands_in("port "@ + number + middle, vm_id@, none);
            lemma_stands_in("port "@, number, middle + vm_id@);
            assert("port "@ + number + (middle + vm_id@) =~= error_text(e));
        },
        Error::PortNotExposed { vm_id, port } => {
            let number = text::decimal(port as nat);
            let middle = " is not exposed on vm "@;
            lemma_stands_in("port "@ + number + middle, vm_id@, none);
            lemma_stands_in("port "@, number, middle + vm_id@);
            assert("port "@ + number + (middle + vm_id@) =~= error_text(e));
        },
        Error::InvalidPort(port) => {
            lemma_stands_in("invalid port "@, text::decimal(port as nat), ": must be 1-65535"@);
        },
        Error::InvalidStateTransition { from, to } => {
            let moved = state_name(from) + " -> "@ + state_name(to);
            lemma_stands_in("invalid VM state transition: "@, moved, none);
            assert("invalid VM state transition: "@ + moved =~= error_text(e));
        },
        Error::Io(m) => {
            lemma_stands_in("IO error: "@, m@, none);
        },
        Error::Json(m) => {
            lemma_stands_in("JSON parse error: "@, m@, none);
        },
        Error::Lock(m) => {
            lemma_stands_in("Lock error: "@, m@, none);
        },
        Error::TracingSubscriberFilterParse(m) => {
            lemma_stands_in("tracing_subscriber filter parse: "@, m@, none);
        },
        Error::Vmm(m) => {
            lemma_stands_in("vmm error: "@, m@, none);
        },
        Error::Net(m) => {
            lemma_stands_in("net error: "@, m@, none);
        },
        Error::Storage(m) => {
            lemma_stands_in("storage error: "@, m@, none);
        },
        Error::ProxyToken(m) => {
            lemma_stands_in("proxy token error: "@, m@, none);
        },
        Error::MissingApiToken => {},
    }
}

} // verus!

//! Enters the namespaces that were not entered before the init process started, and
//! names the host where that made a new one.

use crate::abi::{namespace_flag, EnteredNamespace};
use crate::call::{
    result_view, text_option, Call, CallView, NamespaceFilter, NamespaceType, Reply, ReplyKind,
};
use crate::error::{InitErrorView, InitProcessError};
use vstd::prelude::*;

verus! {

/// The steps of the procedure.
#[derive(Debug, Clone, Copy, PartialEq, Eq, Structural)]
pub enum Step {
    Apply,
    LookUpUts,
    Hostname,
    Domainname,
}

/// The namespaces that are not entered here: the user and the pid namespace, by their bits
/// of `clone(2)`. The process is in them already.
pub open spec fn left_out() -> Seq<i32> {
    seq![EnteredNamespace::User.bits(), EnteredNamespace::Pid.bits()]
}

/// A name is set only where the configuration has one.
pub open spec fn valid(
    step: Step,
    hostname: Option<Seq<char>>,
    domainname: Option<Seq<char>>,
) -> bool {
    &&& step == Step::Hostname ==> hostname is Some
    &&& step == Step::Domainname ==> domainname is Some
}

/// The kind of answer that a step gets.
pub open spec fn answer(step: Step) -> ReplyKind {
    match step {
        Step::LookUpUts => ReplyKind::Namespace,
        _ => ReplyKind::Outcome,
    }
}

/// The call of a step.
pub open spec fn spec_call(
    step: Step,
    hostname: Option<Seq<char>>,
    domainname: Option<Seq<char>>,
) -> CallView {
    match step {
        Step::Apply => CallView::ApplyNamespaces { left_out: left_out() },
        Step::LookUpUts => CallView::GetNamespace(NamespaceType::Uts),
        Step::Hostname => CallView::SetHostname(hostname->0),
        Step::Domainname => CallView::SetDomainname(domainname->0),
    }
}

/// The host and the domain get their names, one after the other, where the configuration
/// has them and the process is in a new uts namespace: one without a path to join.
pub open spec fn spec_reply<E>(
    step: Step,
    has_hostname: bool,
    has_domainname: bool,
    reply: Reply<E>,
) -> Result<Option<Step>, InitErrorView<E>> {
    let name_domain = if has_domainname {
        Some(Step::Domainname)
    } else {
        None
    };
    let name_host = if has_hostname {
        Some(Step::Hostname)
    } else {
        name_domain
    };
    match (step, reply) {
        (Step::Apply, Reply::Outcome(Ok(_))) => Ok(Some(Step::LookUpUts)),
        (Step::Apply, Reply::Outcome(Err(err))) => Err(InitProcessError::Namespaces(err)),
        (Step::LookUpUts, Reply::Namespace(Ok(Some(namespace)))) => Ok(
            if namespace.path is None {
                name_host
            } else {
                None
            },
        ),
        (Step::LookUpUts, Reply::Namespace(Err(err))) => Err(InitProcessError::Namespaces(err)),
        (Step::Hostname, Reply::Outcome(Ok(_))) => Ok(name_domain),
        (Step::Hostname, Reply::Outcome(Err(err))) => Err(InitProcessError::SetHostname(err)),
        (Step::Domainname, Reply::Outcome(Err(err))) => Err(InitProcessError::SetDomainname(err)),
        _ => Ok(None),
    }
}

/// The call of a step.
pub fn call(step: Step, hostname: &Option<String>, domainname: &Option<String>) -> (call: Call)
    requires
        valid(step, text_option(*hostname), text_option(*domainname)),
    ensures
        call@ == spec_call(step, text_option(*hostname), text_option(*domainname)),
{
    match step {
        Step::Apply => {
            let left_out: Vec<i32> = vec![
                namespace_flag(EnteredNamespace::User),
                namespace_flag(EnteredNamespace::Pid),
            ];
            assert(left_out@ =~= self::left_out());
            Call::ApplyNamespaces(NamespaceFilter { left_out })
        },
        Step::LookUpUts => Call::GetNamespace(NamespaceType::Uts),
        Step::Hostname => Call::SetHostname(hostname.as_ref().unwrap().clone()),
        Step::Domainname => Call::SetDomainname(domainname.as_ref().unwrap().clone()),
    }
}

/// Exactly the namespaces other than the user and the pid namespace pass.
pub proof fn law_rest_namespaces_pass(bits: i32)
    ensures
        !left_out().contains(bits) <==> bits != EnteredNamespace::User.bits() && bits
            != EnteredNamespace::Pid.bits(),
{
    assert(left_out()[0] == EnteredNamespace::User.bits());
    assert(left_out()[1] == EnteredNamespace::Pid.bits());
}

/// What follows from the answer to a step: the next step, if there is one, or an error.
pub fn reply<E>(step: Step, has_hostname: bool, has_domainname: bool, received: Reply<E>) -> (next:
    Result<Option<Step>, InitProcessError<E>>)
    requires
        received.spec_kind() == answer(step),
    ensures
        result_view(next) == spec_reply(step, has_hostname, has_domainname, received),
{
    let name_domain = if has_domainname {
        Some(Step::Domainname)
    } else {
        None
    };
    match (step, received) {
        (Step::Apply, Reply::Outcome(Ok(_))) => Ok(Some(Step::LookUpUts)),
        (Step::Apply, Reply::Outcome(Err(err))) => Err(InitProcessError::Namespaces(err)),
        (Step::LookUpUts, Reply::Namespace(Ok(Some(namespace)))) => {
            // Only set the host name if entering into a new uts namespace
            if namespace.path.is_some() {
                Ok(None)
            } else if has_hostname {
                Ok(Some(Step::Hostname))
            } else {
                Ok(name_domain)
            }
        },
        (Step::LookUpUts, Reply::Namespace(Err(err))) => Err(InitProcessError::Namespaces(err)),
        (Step::Hostname, Reply::Outcome(Ok(_))) => Ok(name_domain),
        (Step::Hostname, Reply::Outcome(Err(err))) => Err(InitProcessError::SetHostname(err)),
        (Step::Domainname, Reply::Outcome(Err(err))) => Err(InitProcessError::SetDomainname(err)),
        _ => Ok(None),
    }
}

} // verus!

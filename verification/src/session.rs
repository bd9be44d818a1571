//! Sessions: the workflow and the identity that a session is bound to.

use vstd::prelude::*;
use crate::errors;
use crate::errors::PipelineError;
use crate::text;

verus! {

/// Whether the actions of a session are chained into a signed receipt, or
/// kept as a plain trajectory.
#[derive(Clone, Copy, Debug, PartialEq, Eq, Structural)]
pub enum Workflow {
    Signed,
    Unsigned,
}

/// The word for a workflow.
pub open spec fn workflow_word(workflow: Workflow) -> Seq<char> {
    match workflow {
        Workflow::Signed => "signed"@,
        Workflow::Unsigned => "unsigned"@,
    }
}

/// The workflow that a word stands for.
pub open spec fn workflow_named(word: Seq<char>) -> Option<Workflow> {
    if word == "signed"@ {
        Some(Workflow::Signed)
    } else if word == "unsigned"@ {
        Some(Workflow::Unsigned)
    } else {
        None
    }
}

impl Workflow {
    /// The workflow that a word stands for.
    pub fn parse(word: &str) -> (workflow: Option<Workflow>)
        ensures
            workflow == workflow_named(word@),
    {
        if text::same_text(word, "signed") {
            Some(Workflow::Signed)
        } else if text::same_text(word, "unsigned") {
            Some(Workflow::Unsigned)
        } else {
            None
        }
    }

    /// The word for this workflow.
    pub fn as_str(self) -> (word: &'static str)
        ensures
            word@ == workflow_word(self),
    {
        match self {
            Workflow::Signed => "signed",
            Workflow::Unsigned => "unsigned",
        }
    }
}

/// The word for a workflow names that workflow.
pub proof fn law_workflow_words_round_trip(workflow: Workflow)
    ensures
        workflow_named(workflow_word(workflow)) == Some(workflow),
{
    reveal_strlit("signed");
    reveal_strlit("unsigned");
    assert("signed"@.len() != "unsigned"@.len());
}

/// The agent that a request comes from.
#[derive(Debug)]
pub struct AgentIdentity {
    pub version: String,
    pub charter: String,
    pub instance_uid: String,
    pub ttl_remaining_s: Option<u64>,
}

/// An [`AgentIdentity`] by its texts.
#[verifier::ext_equal]
pub struct IdentityView {
    pub version: Seq<char>,
    pub charter: Seq<char>,
    pub instance_uid: Seq<char>,
    pub ttl_remaining_s: Option<u64>,
}

impl View for AgentIdentity {
    type V = IdentityView;

    open spec fn view(&self) -> IdentityView {
        IdentityView {
            version: self.version@,
            charter: self.charter@,
            instance_uid: self.instance_uid@,
            ttl_remaining_s: self.ttl_remaining_s,
        }
    }
}

/// Whether two identities are of the same agent; the time left does not count.
pub open spec fn same_agent(a: IdentityView, b: IdentityView) -> bool {
    a.instance_uid == b.instance_uid && a.charter == b.charter && a.version == b.version
}

/// What stands against a request joining a session, if anything does.
pub open spec fn binding_fault(
    bound: Workflow,
    owner: IdentityView,
    workflow: Workflow,
    identity: IdentityView,
) -> Option<errors::ErrorView> {
    if bound != workflow {
        Some(errors::bad_request("session workflow cannot change after open"@))
    } else if !same_agent(owner, identity) {
        Some(errors::unauthorized("session is bound to a different agent identity"@))
    } else {
        None
    }
}

/// Whether a request may join a session that is bound to a workflow and an
/// agent.
pub fn validate_session_binding(
    bound: Workflow,
    owner: &AgentIdentity,
    workflow: Workflow,
    identity: &AgentIdentity,
) -> (allowed: Result<(), PipelineError>)
    ensures
        match allowed {
            Ok(()) => binding_fault(bound, owner@, workflow, identity@) is None,
            Err(e) => binding_fault(bound, owner@, workflow, identity@) == Some(e@),
        },
{
    if bound != workflow {
        return Err(PipelineError::BadRequest("session workflow cannot change after open".to_owned()));
    }
    if !text::same_text(owner.instance_uid.as_str(), identity.instance_uid.as_str()) || !text::same_text(
        owner.charter.as_str(),
        identity.charter.as_str(),
    ) || !text::same_text(owner.version.as_str(), identity.version.as_str()) {
        return Err(
            PipelineError::Unauthorized("session is bound to a different agent identity".to_owned()),
        );
    }
    Ok(())
}

/// A session that one request could join, another can join exactly when it
/// asks for the same workflow and comes from the same agent.
pub proof fn law_session_has_one_owner(
    bound: Workflow,
    owner: IdentityView,
    workflow: Workflow,
    first: IdentityView,
    other_workflow: Workflow,
    second: IdentityView,
)
    requires
        binding_fault(bound, owner, workflow, first) is None,
    ensures
        binding_fault(bound, owner, other_workflow, second) is None <==> other_workflow == workflow
            && same_agent(first, second),
{
}

/// Where a session stands with its end.
#[derive(Clone, Copy, Debug, PartialEq, Eq, Structural)]
pub struct Standing {
    /// A close has claimed the session.
    pub claimed: bool,
    /// The session's artifact counts as committed: nothing is added to it.
    pub sealed: bool,
    /// The session's audit capture is not complete.
    pub capture_failed: bool,
}

/// Whether a session takes no more work: it is being closed, or sealed.
pub open spec fn takes_no_work(standing: Standing) -> bool {
    standing.claimed || standing.sealed
}

impl Standing {
    /// The standing of a session that was just opened.
    pub fn new() -> (standing: Standing)
        ensures
            standing == (Standing { claimed: false, sealed: false, capture_failed: false }),
    {
        Standing { claimed: false, sealed: false, capture_failed: false }
    }

    /// Whether the session takes no more work.
    pub fn is_closed(&self) -> (closed: bool)
        ensures
            closed == takes_no_work(*self),
    {
        self.claimed || self.sealed
    }

    /// Whether the session can be leased for a request.
    pub fn may_lease(&self) -> (may: bool)
        ensures
            may == !takes_no_work(*self),
    {
        !self.is_closed()
    }

    /// Claims the session for a close; tells whether the claim is given. A
    /// session that is sealed can still be claimed, so that its close is
    /// completed.
    pub fn try_close(&mut self) -> (given: bool)
        ensures
            given == !old(self).claimed,
            *final(self) == (Standing { claimed: true, ..*old(self) }),
    {
        let given: bool = !self.claimed;
        self.claimed = true;
        given
    }
}

/// A request joins a session of its own workflow and its own agent; a session
/// of the other workflow is a bad request, one of another agent is forbidden
/// to it. The time left to its identity does not count.
pub proof fn law_strangers_are_kept_out(
    bound: Workflow,
    owner: IdentityView,
    workflow: Workflow,
    identity: IdentityView,
    ttl_remaining_s: Option<u64>,
)
    ensures
        ({
            let own = owner.version == identity.version && owner.charter == identity.charter && owner.instance_uid
                == identity.instance_uid;
            let fault = binding_fault(bound, owner, workflow, identity);
            &&& fault is None <==> bound == workflow && own
            &&& bound != workflow ==> (fault matches Some(e) && e.kind == errors::ErrorKind::BadRequest)
            &&& bound == workflow && !own ==> (fault matches Some(e) && e.kind == errors::ErrorKind::Unauthorized)
            &&& fault == binding_fault(bound, owner, workflow, IdentityView { ttl_remaining_s, ..identity })
        }),
{
}

/// There are two workflows, each with its word; no other word names one.
pub proof fn law_workflows_are_named(name: Seq<char>)
    ensures
        workflow_named(name) == Some(Workflow::Signed) <==> name == "signed"@,
        workflow_named(name) == Some(Workflow::Unsigned) <==> name == "unsigned"@,
        workflow_word(Workflow::Signed) == "signed"@,
        workflow_word(Workflow::Unsigned) == "unsigned"@,
{
    reveal_strlit("signed");
    reveal_strlit("unsigned");
    assert("signed"@.len() != "unsigned"@.len());
}

/// A session takes work exactly as long as no close has claimed it and it is
/// not sealed; a failed capture alone does not end it.
pub proof fn law_sessions_work_until_they_end(standing: Standing)
    ensures
        takes_no_work(standing) <==> standing.claimed || standing.sealed,
{
}

/// A change of workflow is the fault of the request; another agent is not
/// let in. A change of workflow is told first.
pub proof fn law_binding_faults_are_told_apart(
    bound: Workflow,
    owner: IdentityView,
    workflow: Workflow,
    identity: IdentityView,
)
    ensures
        bound != workflow ==> binding_fault(bound, owner, workflow, identity) == Some(
            errors::ErrorView {
                kind: errors::ErrorKind::BadRequest,
                detail: "session workflow cannot change after open"@,
            },
        ),
        bound == workflow && (owner.instance_uid != identity.instance_uid || owner.charter != identity.charter
            || owner.version != identity.version) ==> binding_fault(bound, owner, workflow, identity) == Some(
            errors::ErrorView {
                kind: errors::ErrorKind::Unauthorized,
                detail: "session is bound to a different agent identity"@,
            },
        ),
{
}

} // verus!

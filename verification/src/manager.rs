//! The domain manager: the single authority that resolves a domain name
//! into a profile/domain pairing.
//!
//! Handlers enqueue `ManagerAction` values; one worker processes them in
//! arrival order, so the domain table never sees a concurrent mutation.
//! The queue and the per-request reply channels are plumbing around this
//! module: the decision each request gets is fixed here, and every request
//! receives exactly one reply.
use vstd::prelude::*;

use crate::codec::strs_view;
use crate::config::Portal;
use crate::config::ProfileDom;

verus! {

/// A request to resolve (or create) the domain for a profile name.
#[derive(Clone, Debug, PartialEq, Eq)]
pub struct NewDomRequest {
    pub name: String,
}

/// The manager's reply: the resolved pairing, or absence.
#[derive(Clone, Debug, PartialEq, Eq)]
pub struct NewDomResponse {
    pub profile: Option<ProfileDom>,
}

/// Everything the manager can be asked to do.
#[derive(Clone, Debug, PartialEq, Eq)]
pub enum ManagerAction {
    NewDom(NewDomRequest),
}

/// The one correct reply to a domain request: the resolved pairing when
/// the profile exists and the jail backend has a domain for it, absence
/// otherwise.
pub open spec fn new_dom_reply_ok(portal: Portal, name: Seq<char>, r: NewDomResponse) -> bool {
    match r.profile {
        Some(pd) => {
            &&& portal.has_profile(name)
            &&& portal.has_domain(name)
            &&& pd.name@ == name
            &&& strs_view(pd.cmd@) == portal.profile_cmd(name)
            &&& pd.jdom == portal.domain_id(name)
        },
        None => !(portal.has_profile(name) && portal.has_domain(name)),
    }
}

impl NewDomRequest {
    /// Resolves this request against the portal's tables: an unknown
    /// profile name or a profile without a backing jail domain yields an
    /// absent result, never a failure.
    pub fn call(&self, portal: &Portal) -> (r: NewDomResponse)
        ensures
            new_dom_reply_ok(*portal, self.name@, r),
    {
        let cmd: Option<Vec<String>> = match portal.profile(self.name.as_str()) {
            Some(config) => Some(config.cmd.clone()),
            None => None,
        };
        match cmd {
            Some(cmd) => {
                match portal.domain(self.name.as_str()) {
                    Some(jdom) => NewDomResponse {
                        profile: Some(
                            ProfileDom { name: self.name.clone(), cmd, jdom },
                        ),
                    },
                    None => NewDomResponse { profile: None },
                }
            },
            None => NewDomResponse { profile: None },
        }
    }
}

/// Drains a queue of manager actions in arrival order, answering each one.
/// The portal is only read, so requests cannot race on the domain table,
/// and every enqueued request gets exactly one reply.
pub fn manager_listen(portal: &Portal, queue: Vec<ManagerAction>) -> (r: Vec<NewDomResponse>)
    ensures
        r@.len() == queue@.len(),
        forall|i: int|
            0 <= i < queue@.len() ==> new_dom_reply_ok(
                *portal,
                queue@[i]->NewDom_0.name@,
                r@[i],
            ),
{
    let mut replies: Vec<NewDomResponse> = Vec::new();
    let mut i: usize = 0;
    while i < queue.len()
        invariant
            i <= queue@.len(),
            replies@.len() == i,
            forall|t: int|
                0 <= t < i ==> new_dom_reply_ok(*portal, queue@[t]->NewDom_0.name@, replies@[t]),
        decreases queue@.len() - i,
    {
        let reply = match &queue[i] {
            ManagerAction::NewDom(req) => req.call(portal),
        };
        replies.push(reply);
        i = i + 1;
    }
    replies
}

/// However many concurrent requests name the same profile, every reply
/// carrying a domain references the same jail handle: serialization in
/// the manager leaves no room for a duplicate creation.
pub proof fn lemma_same_name_same_domain(
    portal: Portal,
    name: Seq<char>,
    r1: NewDomResponse,
    r2: NewDomResponse,
)
    requires
        new_dom_reply_ok(portal, name, r1),
        new_dom_reply_ok(portal, name, r2),
    ensures
        (r1.profile is Some) <==> (r2.profile is Some),
        r1.profile is Some ==> r1.profile->0.jdom == r2.profile->0.jdom,
        r1.profile is Some ==> r1.profile->0.name@ == r2.profile->0.name@,
        r1.profile is Some ==> strs_view(r1.profile->0.cmd@) == strs_view(r2.profile->0.cmd@),
{
}

/// A request naming an unknown profile is answered with an absent result:
/// it never becomes an error that could stop the manager's loop.
pub proof fn lemma_unknown_profile_absent(portal: Portal, name: Seq<char>, r: NewDomResponse)
    requires
        !portal.has_profile(name),
        new_dom_reply_ok(portal, name, r),
    ensures
        r.profile is None,
{
}

/// A profile without a backing jail domain is answered with an absent
/// result: a configuration gap is reported, not escalated.
pub proof fn lemma_missing_domain_absent(portal: Portal, name: Seq<char>, r: NewDomResponse)
    requires
        !portal.has_domain(name),
        new_dom_reply_ok(portal, name, r),
    ensures
        r.profile is None,
{
}

} // verus!

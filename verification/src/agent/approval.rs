//! The approval gate: who waits for which decision.

use crate::contracts::error::{ContractError, ContractErrorView};
use crate::ident::{is_v4, Uuid};
use crate::text::stands_at;
use std::collections::HashMap;
use vstd::prelude::*;

verus! {

broadcast use vstd::std_specs::hash::group_hash_axioms;

/// Registry of pending approvals. A turn that reaches a tool that requires
/// approval registers a waiter here and parks until the surface resolves it.
pub struct ApprovalRegistry<W> {
    pending: HashMap<u128, W>,
}

impl<W> View for ApprovalRegistry<W> {
    type V = Map<u128, W>;

    closed spec fn view(&self) -> Map<u128, W> {
        self.pending@
    }
}

/// The error for an approval that is not pending.
pub open spec fn unknown_approval(id: Uuid) -> ContractErrorView {
    ContractErrorView::Other("no pending approval with id "@ + id.text())
}

/// The error for a decision that nobody waits for any more.
pub open spec fn waiter_gone() -> ContractErrorView {
    ContractErrorView::Other("approval waiter gone (turn ended or was cancelled)"@)
}

impl<W> ApprovalRegistry<W> {
    /// A registry without pending approvals.
    pub fn new() -> (r: ApprovalRegistry<W>)
        ensures
            r@ == Map::<u128, W>::empty(),
    {
        ApprovalRegistry { pending: HashMap::new() }
    }

    /// Registers a waiter under a fresh identifier.
    pub fn register(&mut self, waiter: W) -> (id: Uuid)
        ensures
            is_v4(id.0),
            final(self)@ == old(self)@.insert(id.0, waiter),
    {
        let id = Uuid::new_v4();
        self.register_as(id, waiter);
        id
    }

    /// Registers a waiter under the given identifier.
    pub fn register_as(&mut self, id: Uuid, waiter: W)
        ensures
            final(self)@ == old(self)@.insert(id.0, waiter),
    {
        self.pending.insert(id.0, waiter);
    }

    /// Takes out the waiter to whom a decision is due. Fails where the approval
    /// is not pending: already resolved, discarded, or never issued.
    pub fn resolve(&mut self, id: Uuid) -> (r: Result<W, ContractError>)
        ensures
            final(self)@ == old(self)@.remove(id.0),
            match r {
                Ok(w) => old(self)@.dom().contains(id.0) && w == old(self)@[id.0],
                Err(e) => !old(self)@.dom().contains(id.0) && e@ == unknown_approval(id),
            },
    {
        match self.pending.remove(&id.0) {
            Some(w) => Ok(w),
            None => {
                assert(old(self)@.remove(id.0) =~= old(self)@);
                Err(
                    ContractError::other(
                        "no pending approval with id ".to_owned().concat(id.to_text().as_str()),
                    ),
                )
            },
        }
    }

    /// What resolving amounts to once the decision has been sent: an error where
    /// the waiter was gone.
    pub fn delivered(sent: bool) -> (r: Result<(), ContractError>)
        ensures
            r is Ok <==> sent,
            r matches Err(e) ==> e@ == waiter_gone(),
    {
        if sent {
            Ok(())
        } else {
            Err(
                ContractError::other("approval waiter gone (turn ended or was cancelled)".to_owned()),
            )
        }
    }

    /// Drops a pending approval without resolving it.
    pub fn discard(&mut self, id: Uuid)
        ensures
            final(self)@ == old(self)@.remove(id.0),
    {
        let _gone = self.pending.remove(&id.0);
        assert(self@ =~= old(self)@.remove(id.0));
    }
}

/// An approval is resolved at most once: after it was resolved or discarded it
/// is no longer pending.
pub proof fn law_resolved_once<W>(pending: Map<u128, W>, id: Uuid)
    ensures
        !pending.remove(id.0).dom().contains(id.0),
{
}

/// Resolving one approval leaves the others pending.
pub proof fn law_others_stay_pending<W>(pending: Map<u128, W>, id: Uuid, other: Uuid)
    requires
        id != other,
        pending.dom().contains(other.0),
    ensures
        pending.remove(id.0).dom().contains(other.0),
        pending.remove(id.0)[other.0] == pending[other.0],
{
}

/// The error of an approval that is not pending names the approval.
pub proof fn law_unknown_approval_is_named(id: Uuid)
    ensures
        unknown_approval(id) matches ContractErrorView::Other(message) && stands_at(
            message,
            id.text(),
            message.len() - id.text().len(),
        ),
{
}

} // verus!

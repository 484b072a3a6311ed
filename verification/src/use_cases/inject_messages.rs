//! Injection of FindNodeReqs from outside the protocol, and the delivery of their results.

use std::collections::HashMap;

use vstd::prelude::*;

use crate::domain::{copy_bytes, copy_path, GroupingError, Micros, NodeId, Nonce, ProtocolMessageKind, NODE_ID_BITS};
use crate::utils::nonce::distinct_nonce;

pub mod errors;

use errors::InjectMessageError;

verus! {

broadcast use vstd::std_specs::hash::group_hash_axioms;

/// The response that answered an injected request, as far as the library reads it.
#[derive(Debug, Clone, PartialEq, Eq)]
pub struct Answer {
    /// The kind of the response.
    pub kind: ProtocolMessageKind,
    /// The node that sent it.
    pub source: NodeId,
    /// The values it returns (those of a FetchRsp; none for other responses).
    pub values: Vec<Vec<u8>>,
    /// The paths of the contacts it names (those of a FindNodeRsp; none for other
    /// responses).
    pub contact_paths: Vec<Vec<NodeId>>,
}

/// The byte strings, each by its view.
pub open spec fn bytes_view(v: Seq<Vec<u8>>) -> Seq<Seq<u8>> {
    v.map_values(|b: Vec<u8>| b@)
}

/// The paths, each by its view.
pub open spec fn paths_view(v: Seq<Vec<NodeId>>) -> Seq<Seq<NodeId>> {
    v.map_values(|p: Vec<NodeId>| p@)
}

/// The result delivers the answer: a response of the kind from the source, with the
/// values and the contact paths.
pub open spec fn is_answer(
    r: InjectionResult,
    kind: ProtocolMessageKind,
    source: NodeId,
    values: Seq<Seq<u8>>,
    contact_paths: Seq<Seq<NodeId>>,
) -> bool {
    r matches InjectionResult::Answered(a) && a.kind == kind && a.source == source && bytes_view(a.values@) == values
        && paths_view(a.contact_paths@) == contact_paths
}

impl Answer {
    /// The answer of a response of the kind from the source, with copies of its values and
    /// contact paths.
    pub fn new(kind: ProtocolMessageKind, source: NodeId, values: &Vec<Vec<u8>>, contact_paths: &Vec<Vec<NodeId>>) -> (a: Self)
        ensures
            a.kind == kind,
            a.source == source,
            bytes_view(a.values@) == bytes_view(values@),
            paths_view(a.contact_paths@) == paths_view(contact_paths@),
    {
        let mut vs: Vec<Vec<u8>> = Vec::new();
        let mut i: usize = 0;
        while i < values.len()
            invariant
                i <= values@.len(),
                vs@.len() == i,
                forall|j: int| 0 <= j < i ==> (#[trigger] vs@[j])@ == values@[j]@,
            decreases values@.len() - i,
        {
            vs.push(copy_bytes(&values[i]));
            i = i + 1;
        }
        let mut ps: Vec<Vec<NodeId>> = Vec::new();
        let mut k: usize = 0;
        while k < contact_paths.len()
            invariant
                k <= contact_paths@.len(),
                ps@.len() == k,
                forall|j: int| 0 <= j < k ==> (#[trigger] ps@[j])@ == contact_paths@[j]@,
            decreases contact_paths@.len() - k,
        {
            ps.push(copy_path(&contact_paths[k]));
            k = k + 1;
        }
        assert(bytes_view(vs@) =~= bytes_view(values@));
        assert(paths_view(ps@) =~= paths_view(contact_paths@));
        Answer { kind, source, values: vs, contact_paths: ps }
    }
}

/// Result delivered for an injected message.
#[derive(Debug, Clone, PartialEq, Eq)]
pub enum InjectionResult {
    /// The injected message was answered with the response it carries.
    Answered(Answer),
    /// The node is isolated and the message could not be injected.
    Isolated,
    /// The injected request was not answered in time.
    Timeout,
}

/// Configuration of message injection.
#[derive(Debug, Clone, Copy, PartialEq, Eq, Structural)]
pub struct InjectMessagesConfig {
    /// Number of bits grouped for finding the closest node (between 1 and 128).
    pub shared_prefix_grouping: u8,
}

impl Default for InjectMessagesConfig {
    fn default() -> (c: Self)
        ensures
            c.shared_prefix_grouping == 1,
    {
        InjectMessagesConfig { shared_prefix_grouping: 1 }
    }
}

/// What the runtime is asked to do.
#[derive(Debug)]
pub enum InjectAction {
    /// Send a FindNodeReq for the target with the nonce along the source route.
    SendFindNodeReq { route: Vec<NodeId>, nonce: Nonce, target: NodeId },
    /// Deliver the result to the injector.
    SendResult(InjectionResult),
}

/// Injects FindNodeReqs and delivers their answers.
#[derive(Debug)]
pub struct InjectMessages {
    config: InjectMessagesConfig,
    /// The nonces of the injected requests, with the time of their injection.
    nonces: HashMap<Nonce, Micros>,
}

impl InjectMessages {
    /// The configuration.
    pub closed spec fn config_view(&self) -> InjectMessagesConfig {
        self.config
    }

    /// The injected requests without an answer so far, by nonce, with their time of
    /// injection.
    pub closed spec fn pending(&self) -> Map<Nonce, Micros> {
        self.nonces@
    }

    /// Creates the use case; fails if the grouping is larger than a node id.
    pub fn new(config: InjectMessagesConfig) -> (res: Result<Self, GroupingError>)
        requires
            config.shared_prefix_grouping >= 1,
        ensures
            config.shared_prefix_grouping > NODE_ID_BITS <==> res is Err,
            res matches Err(e) ==> e == (GroupingError::Invalid { group_size: config.shared_prefix_grouping as usize }),
            res matches Ok(im) ==> im.config_view() == config && im.pending() == Map::<Nonce, Micros>::empty(),
    {
        if config.shared_prefix_grouping > NODE_ID_BITS {
            return Err(GroupingError::Invalid { group_size: config.shared_prefix_grouping as usize });
        }
        Ok(InjectMessages { config, nonces: HashMap::new() })
    }

    /// Injects a FindNodeReq for the target at time `now`, with the given nonce or a fresh
    /// one, along the path to the closest contact (`closest`, this node excluded). Without
    /// a closest contact the node is isolated: the injector is told so and the injection
    /// fails (as `Isolated`; once the runtime tried to tell the injector,
    /// [after_result_sent](Self::after_result_sent) gives the final error).
    pub fn inject_find_node(
        &mut self,
        root: NodeId,
        nonce: Option<Nonce>,
        target: NodeId,
        closest: Option<&Vec<NodeId>>,
        now: Micros,
    ) -> (out: (Vec<InjectAction>, Result<(), InjectMessageError>))
        ensures
            final(self).config_view() == old(self).config_view(),
            closest is None ==> out.0@ == seq![InjectAction::SendResult(InjectionResult::Isolated)]
                && out.1 == Err::<(), InjectMessageError>(InjectMessageError::Isolated)
                && final(self).pending() == old(self).pending(),
            closest matches Some(path) ==> out.1 is Ok && out.0@.len() == 1 && (out.0@[0] matches InjectAction::SendFindNodeReq {
                route,
                nonce: n,
                target: t,
            } && route@ == seq![root] + path@ && t == target && final(self).pending() == old(self).pending().insert(n, now)
                && (nonce matches Some(given) ==> n == given) && (nonce is None ==> !old(self).pending().contains_key(n))),
    {
        let mut actions: Vec<InjectAction> = Vec::new();
        let path = match closest {
            Some(p) => p,
            None => {
                actions.push(InjectAction::SendResult(InjectionResult::Isolated));
                return (actions, Err(InjectMessageError::Isolated));
            },
        };
        let nonce = match nonce {
            Some(n) => n,
            None => distinct_nonce(&self.nonces),
        };
        let mut route: Vec<NodeId> = Vec::new();
        route.push(root);
        let mut rest = copy_path(path);
        route.append(&mut rest);
        actions.push(InjectAction::SendFindNodeReq { route, nonce, target });
        self.nonces.insert(nonce, now);
        (actions, Ok(()))
    }

    /// The outcome of an injection step once the runtime tried to deliver the result (of a
    /// [SendResult](InjectAction::SendResult)) to the injector: a failed delivery is
    /// `SendResultFailed`; a delivered `Isolated` result leaves the injection failed as
    /// isolated; any other delivered result completes the step.
    pub fn after_result_sent(&self, result: &InjectionResult, delivered: bool) -> (res: Result<(), InjectMessageError>)
        ensures
            !delivered ==> res == Err::<(), InjectMessageError>(InjectMessageError::SendResultFailed),
            delivered && *result is Isolated ==> res == Err::<(), InjectMessageError>(InjectMessageError::Isolated),
            delivered && !(*result is Isolated) ==> res is Ok,
    {
        if !delivered {
            return Err(InjectMessageError::SendResultFailed);
        }
        match result {
            InjectionResult::Isolated => Err(InjectMessageError::Isolated),
            _ => Ok(()),
        }
    }

    /// A message with the nonce arrived (of the kind, from the source, with the values and
    /// contact paths it carries): if it answers an injected request, the request is done
    /// and the message delivered as the answer.
    pub fn handle_message(
        &mut self,
        nonce: Option<Nonce>,
        kind: ProtocolMessageKind,
        source: NodeId,
        values: &Vec<Vec<u8>>,
        contact_paths: &Vec<Vec<NodeId>>,
    ) -> (actions: Vec<InjectAction>)
        ensures
            final(self).config_view() == old(self).config_view(),
            nonce is Some && old(self).pending().contains_key(nonce->0) ==> actions@.len() == 1 && (actions@[0] matches InjectAction::SendResult(r)
                && is_answer(r, kind, source, bytes_view(values@), paths_view(contact_paths@)))
                && final(self).pending() == old(self).pending().remove(nonce->0),
            !(nonce is Some && old(self).pending().contains_key(nonce->0)) ==> actions@.len() == 0 && final(self).pending() == old(self).pending(),
    {
        let mut actions: Vec<InjectAction> = Vec::new();
        if let Some(n) = nonce {
            if self.nonces.remove(&n).is_some() {
                actions.push(InjectAction::SendResult(InjectionResult::Answered(Answer::new(kind, source, values, contact_paths))));
            }
        }
        actions
    }
}

} // verus!

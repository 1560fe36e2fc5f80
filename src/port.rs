use vstd::prelude::*;
use vstd::hash_map::HashMapWithView;
use crate::ipc::RecvError;
use crate::service::{call_outcome, Dispatch, HandleToExchange, MethodId, PortRef, ProxyError};
use crate::wire::{
    call_bytes, decode_call, encode_response, lemma_call_round_trip, lemma_response_round_trip,
    parse_call, parse_response, response_bytes,
};

verus! {

broadcast use vstd::std_specs::hash::group_hash_axioms;

/// Process-local identifier of an exported object.
pub type ServiceObjectId = u32;

/// Why a call could not reach an object.
#[derive(Debug, Clone, Copy, PartialEq, Eq, Structural)]
pub enum CallError {
    /// No object is exported under the id called: it never was, or it has
    /// been unexported since.
    NoSuchObject,
}

/// Why a local handle could not be used.
#[derive(Debug, Clone, Copy, PartialEq, Eq, Structural)]
pub enum HandleError {
    /// The handle belongs to another registry, one that is gone or that
    /// was never this one.
    PortGone,
}

/// Abstract state of a registry: the live exports by id, how many ids
/// have been handed out, and the registry's own identity.
pub struct RegistryView<D> {
    pub objects: Map<ServiceObjectId, D>,
    pub issued: nat,
    pub port: PortRef,
}

/// Every live id was handed out before: ids count up and are never reused.
pub open spec fn registry_wf<D>(s: RegistryView<D>) -> bool {
    &&& s.issued <= u32::MAX + 1
    &&& forall|id: ServiceObjectId| #[trigger] s.objects.contains_key(id) ==> id < s.issued
}

/// The id that the next export takes: `None` once every id has been
/// handed out.
pub open spec fn next_id<D>(s: RegistryView<D>) -> Option<ServiceObjectId> {
    if s.issued > u32::MAX {
        None
    } else {
        Some(s.issued as ServiceObjectId)
    }
}

/// Exporting `object` puts it under the next id, if there is one.
pub open spec fn export_step<D>(s: RegistryView<D>, object: D) -> (
    RegistryView<D>,
    Option<ServiceObjectId>,
) {
    match next_id(s) {
        None => (s, None),
        Some(id) => (
            RegistryView { objects: s.objects.insert(id, object), issued: s.issued + 1, port: s.port },
            Some(id),
        ),
    }
}

/// Unexporting drops the entry; the id is not handed out again.
pub open spec fn unexport_step<D>(s: RegistryView<D>, id: ServiceObjectId) -> RegistryView<D> {
    RegistryView { objects: s.objects.remove(id), issued: s.issued, port: s.port }
}

/// What answering call message `msg` yields: `None` for a malformed message,
/// else the not-found response, or a response carrying the bytes that the
/// object under the id called returned for that method and those arguments.
pub open spec fn answers<D: Dispatch>(s: RegistryView<D>, msg: Seq<u8>, r: Option<Seq<u8>>) -> bool {
    match parse_call(msg) {
        None => r is None,
        Some((id, method, args)) => if s.objects.contains_key(id) {
            exists|result: Seq<u8>|
                r == Some(response_bytes(Ok(result))) && #[trigger] s.objects[id].dispatch_returns(
                    method,
                    args,
                    result,
                )
        } else {
            r == Some(response_bytes(Err(CallError::NoSuchObject)))
        },
    }
}

/// Hands out registry identities, each one at most once.
pub struct PortKeys {
    next: u64,
}

impl PortKeys {
    /// The key that the next call of `fresh` hands out.
    pub closed spec fn next_key(&self) -> nat {
        self.next as nat
    }

    pub fn new() -> (r: PortKeys)
        ensures
            r.next_key() == 0,
    {
        PortKeys { next: 0 }
    }

    /// A key this allocator never handed out before: keys count up, so two
    /// registries made from its keys never accept each other's handles.
    /// `None` once every key has been handed out.
    pub fn fresh(&mut self) -> (r: Option<PortRef>)
        ensures
            match r {
                Some(p) => p.key == old(self).next_key() && final(self).next_key() == old(
                    self,
                ).next_key() + 1,
                None => old(self).next_key() == u64::MAX && final(self).next_key() == old(
                    self,
                ).next_key(),
            },
    {
        if self.next == u64::MAX {
            return None;
        }
        let key = self.next;
        self.next = self.next + 1;
        Some(PortRef { key })
    }
}

/// What the serve loop does with the result of one receive.
#[derive(Debug, PartialEq, Eq)]
pub enum ServeStep {
    /// The receive timed out: receive again.
    Wait,
    /// The channel was terminated: stop serving.
    Stop,
    /// Send this response message.
    Reply(Vec<u8>),
    /// The call message was malformed: the channel can no longer be trusted.
    Fault,
}

/// Table of exported objects of one connection, keyed by object id.
#[verifier::reject_recursive_types(D)]
pub struct Registry<D: Dispatch> {
    port: PortRef,
    issued: u64,
    objects: HashMapWithView<ServiceObjectId, D>,
}

impl<D: Dispatch> View for Registry<D> {
    type V = RegistryView<D>;

    closed spec fn view(&self) -> RegistryView<D> {
        RegistryView { objects: self.objects@, issued: self.issued as nat, port: self.port }
    }
}

impl<D: Dispatch> Registry<D> {
    /// Every live id was handed out before, so none is handed out twice.
    pub open spec fn wf(&self) -> bool {
        registry_wf(self@)
    }

    /// An empty registry whose handles carry `port`. Handles tell registries
    /// apart by this key alone, so give each registry its own, such as one
    /// from [`PortKeys::fresh`].
    pub fn new(port: PortRef) -> (r: Registry<D>)
        ensures
            r.wf(),
            r@.objects.dom() == Set::<ServiceObjectId>::empty(),
            r@.issued == 0,
            r@.port == port,
    {
        Registry { port, issued: 0, objects: HashMapWithView::new() }
    }

    /// The identity that local handles of this registry carry.
    pub fn port_ref(&self) -> (r: PortRef)
        ensures
            r == self@.port,
    {
        self.port
    }

    pub fn is_live(&self, id: ServiceObjectId) -> (r: bool)
        ensures
            r == self@.objects.contains_key(id),
    {
        self.objects.contains_key(&id)
    }

    /// Registers `object` under a fresh id and returns the transportable
    /// handle for it; `None` once every id has been handed out.
    pub fn export(&mut self, object: D) -> (r: Option<HandleToExchange>)
        requires
            old(self).wf(),
        ensures
            final(self).wf(),
            (final(self)@, match r {
                Some(h) => Some(h.0),
                None => None,
            }) == export_step(old(self)@, object),
    {
        if self.issued > u32::MAX as u64 {
            return None;
        }
        let id = self.issued as ServiceObjectId;
        proof {
            lemma_export_takes_fresh_id(self@, object, id);
        }
        self.objects.insert(id, object);
        self.issued = self.issued + 1;
        Some(HandleToExchange(id))
    }

    /// Removes the object exported under `handle`, returning it if it was live.
    pub fn unexport(&mut self, handle: HandleToExchange) -> (r: Option<D>)
        requires
            old(self).wf(),
        ensures
            final(self).wf(),
            final(self)@ == unexport_step(old(self)@, handle.0),
            r == (if old(self)@.objects.contains_key(handle.0) {
                Some(old(self)@.objects[handle.0])
            } else {
                None
            }),
    {
        let r = self.objects.remove(&handle.0);
        assert(self@.objects =~= old(self)@.objects.remove(handle.0));
        r
    }

    /// The dispatch capability exported under `id`, if any.
    pub fn resolve(&self, id: ServiceObjectId) -> (r: Option<&D>)
        ensures
            r == (if self@.objects.contains_key(id) {
                Some(&self@.objects[id])
            } else {
                None
            }),
    {
        self.objects.get(&id)
    }

    /// Calls `method` on the object exported under `id`; fails with
    /// `NoSuchObject` exactly when no object is live under `id`.
    pub fn dispatch_and_call(&self, id: ServiceObjectId, method: MethodId, args: &[u8]) -> (r:
        Result<Vec<u8>, CallError>)
        ensures
            r is Err <==> !self@.objects.contains_key(id),
            r is Err ==> r == Err::<Vec<u8>, CallError>(CallError::NoSuchObject),
            r matches Ok(v) ==> self@.objects[id].dispatch_returns(method, args@, v@),
    {
        match self.objects.get(&id) {
            Some(object) => Ok(object.dispatch_and_call(method, args)),
            None => Err(CallError::NoSuchObject),
        }
    }

    /// Answers one inbound call message with a response message. `None`
    /// means the message is malformed: a protocol fault for the channel.
    pub fn serve(&self, msg: &[u8]) -> (r: Option<Vec<u8>>)
        ensures
            answers(
                self@,
                msg@,
                match r {
                    Some(v) => Some(v@),
                    None => None,
                },
            ),
    {
        match decode_call(msg) {
            None => None,
            Some(call) => {
                let outcome = self.dispatch_and_call(call.object, call.method, call.args.as_slice());
                let out = encode_response(&outcome);
                proof {
                    if let Ok(v) = outcome {
                        assert(out@ == response_bytes(Ok(v@)));
                        let p = parse_call(msg@);
                        assert(p->Some_0.0 == call.object && p->Some_0.1 == call.method
                            && p->Some_0.2 == call.args@);
                        assert(self@.objects[p->Some_0.0].dispatch_returns(
                            p->Some_0.1,
                            p->Some_0.2,
                            v@,
                        ));
                    }
                }
                Some(out)
            },
        }
    }

    /// Decides what the serve loop does with what one receive returned.
    pub fn serve_step(&self, received: Result<Vec<u8>, RecvError>) -> (r: ServeStep)
        ensures
            match received {
                Err(RecvError::TimeOut) => r == ServeStep::Wait,
                Err(RecvError::Termination) => r == ServeStep::Stop,
                Ok(msg) => match r {
                    ServeStep::Reply(out) => answers(self@, msg@, Some(out@)),
                    ServeStep::Fault => answers(self@, msg@, None),
                    _ => false,
                },
            },
    {
        match received {
            Err(RecvError::TimeOut) => ServeStep::Wait,
            Err(RecvError::Termination) => ServeStep::Stop,
            Ok(msg) => match self.serve(msg.as_slice()) {
                Some(out) => ServeStep::Reply(out),
                None => ServeStep::Fault,
            },
        }
    }
}

/// An export never takes an id that is live, and exports and unexports
/// keep every live id below the count of ids handed out.
pub proof fn lemma_export_takes_fresh_id<D>(s: RegistryView<D>, object: D, gone: ServiceObjectId)
    requires
        registry_wf(s),
    ensures
        registry_wf(export_step(s, object).0),
        registry_wf(unexport_step(s, gone)),
        match export_step(s, object).1 {
            Some(id) => !s.objects.contains_key(id) && export_step(s, object).0.objects.contains_key(
                id,
            ),
            None => export_step(s, object).0 == s,
        },
{
    let t = export_step(s, object).0;
    if let Some(id) = export_step(s, object).1 {
        assert forall|k: ServiceObjectId| #[trigger] t.objects.contains_key(k) implies k
            < t.issued by {
            if k != id {
                assert(s.objects.contains_key(k));
            }
        }
    }
}

/// Two objects exported from the same registry, the second while the first
/// is still live, get distinct ids, and both stay reachable.
pub proof fn lemma_live_exports_have_distinct_ids<D>(s: RegistryView<D>, first: D, second: D)
    requires
        registry_wf(s),
        export_step(s, first).1 is Some,
        export_step(export_step(s, first).0, second).1 is Some,
    ensures
        export_step(s, first).1 != export_step(export_step(s, first).0, second).1,
        export_step(export_step(s, first).0, second).0.objects.contains_key(
            export_step(s, first).1->Some_0,
        ),
        export_step(export_step(s, first).0, second).0.objects.contains_key(
            export_step(export_step(s, first).0, second).1->Some_0,
        ),
{
    lemma_export_takes_fresh_id(s, first, 0);
}

/// A call to an id that was never handed out, or that has been unexported,
/// is answered with the not-found response: no object is reached.
pub proof fn lemma_unknown_id_not_found<D: Dispatch>(
    s: RegistryView<D>,
    id: ServiceObjectId,
    method: MethodId,
    args: Seq<u8>,
    r: Option<Seq<u8>>,
)
    requires
        registry_wf(s),
    ensures
        id >= s.issued ==> (answers(s, call_bytes(id, method, args), r) <==> r == Some(
            response_bytes(Err(CallError::NoSuchObject)),
        )),
        answers(unexport_step(s, id), call_bytes(id, method, args), r) <==> r == Some(
            response_bytes(Err(CallError::NoSuchObject)),
        ),
{
    lemma_call_round_trip(id, method, args);
}

/// A call framed for a live object reaches it with the method ordinal and
/// argument bytes it was framed with: the answer carries bytes that the
/// object returned for exactly that method and those arguments, never the
/// not-found response, and the caller waiting for it gets exactly those bytes.
pub proof fn lemma_call_reaches_exported_object<D: Dispatch>(
    s: RegistryView<D>,
    id: ServiceObjectId,
    method: MethodId,
    args: Seq<u8>,
    result: Seq<u8>,
)
    requires
        s.objects.contains_key(id),
        s.objects[id].dispatch_returns(method, args, result),
    ensures
        parse_call(call_bytes(id, method, args)) == Some((id, method, args)),
        answers(s, call_bytes(id, method, args), Some(response_bytes(Ok(result)))),
        !answers(
            s,
            call_bytes(id, method, args),
            Some(response_bytes(Err(CallError::NoSuchObject))),
        ),
        parse_response(response_bytes(Ok(result))) == Some(Ok::<Seq<u8>, CallError>(result)),
        call_outcome(Ok(response_bytes(Ok(result)))) == Some(Ok::<Seq<u8>, ProxyError>(result)),
{
    lemma_call_round_trip(id, method, args);
    lemma_response_round_trip(Ok(result));
    assert(s.objects[id].dispatch_returns(method, args, result));
    let p = parse_call(call_bytes(id, method, args));
    assert(p->Some_0.0 == id);
    assert(p->Some_0.1 == method);
    assert(p->Some_0.2 == args);
    assert(s.objects[p->Some_0.0].dispatch_returns(p->Some_0.1, p->Some_0.2, result));
    let nf = response_bytes(Err(CallError::NoSuchObject));
    assert forall|b: Seq<u8>| nf != #[trigger] response_bytes(Ok(b)) by {
        assert(nf[0] != response_bytes(Ok(b))[0]);
    }
}

} // verus!

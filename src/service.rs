use vstd::prelude::*;
use std::sync::Arc;
use crate::port::{HandleError, Registry, ServiceObjectId};
use crate::ipc::RecvError;
use crate::wire::{call_bytes, decode_response, encode_call, parse_response};

verus! {

/// Stable ordinal of a method within one interface.
pub type MethodId = u32;

/// Transportable identifier of a service object: together with the registry
/// it came from, enough to build a handle to it.
#[derive(Debug, Clone, Copy, PartialEq, Eq, Structural)]
pub struct HandleToExchange(pub ServiceObjectId);

impl HandleToExchange {
    pub fn new_singleton() -> (r: Self)
        ensures
            r.0 == 0,
    {
        HandleToExchange(0)
    }
}

/// Non-owning relation to a registry: the identity it was created with.
#[derive(Debug, Clone, Copy, PartialEq, Eq, Structural)]
pub struct PortRef {
    pub key: u64,
}

/// What a remote service carries: the object id and the registry it
/// relates to, which it does not own.
#[derive(Debug)]
pub struct Handle {
    pub id: ServiceObjectId,
    pub port: PortRef,
}

impl Handle {
    /// For generated import code only: wraps an imported id without going
    /// through the registry's bookkeeping.
    pub fn careful_new(imported_id: HandleToExchange, port: PortRef) -> (r: Self)
        ensures
            r.id == imported_id.0,
            r.port == port,
    {
        Handle { id: imported_id.0, port }
    }

    /// Frames a call of `method` on this handle's object, through the
    /// registry `via`; fails where `via` is not the registry it relates to.
    pub fn call_message<D: Dispatch>(&self, via: &Registry<D>, method: MethodId, args: &[u8]) -> (r: Result<
        Vec<u8>,
        HandleError,
    >)
        ensures
            r is Err <==> self.port != via@.port,
            match r {
                Ok(m) => m@ == call_bytes(self.id, method, args@),
                Err(e) => e == HandleError::PortGone,
            },
    {
        if via.port_ref() != self.port {
            return Err(HandleError::PortGone);
        }
        Ok(encode_call(self.id, method, args))
    }
}

/// Why a call through a proxy failed.
#[derive(Debug, Clone, Copy, PartialEq, Eq, Structural)]
pub enum ProxyError {
    /// The handle does not belong to the registry it was used with.
    PortGone,
    /// The object called is not exported on the other side.
    NoSuchObject,
    /// The channel was terminated while the caller waited for the response.
    Terminated,
    /// The response could not be read: the channel can no longer be trusted.
    Protocol,
}

/// What a caller waiting for its response does with what one receive
/// returned: `None` to receive again, else the call's result.
pub open spec fn call_outcome(received: Result<Seq<u8>, RecvError>) -> Option<
    Result<Seq<u8>, ProxyError>,
> {
    match received {
        Err(RecvError::TimeOut) => None,
        Err(RecvError::Termination) => Some(Err(ProxyError::Terminated)),
        Ok(b) => match parse_response(b) {
            Some(Ok(result)) => Some(Ok(result)),
            Some(Err(_)) => Some(Err(ProxyError::NoSuchObject)),
            None => Some(Err(ProxyError::Protocol)),
        },
    }
}

/// Decides what a caller waiting for its response does with what one
/// receive returned.
pub fn call_step(received: Result<Vec<u8>, RecvError>) -> (r: Option<Result<Vec<u8>, ProxyError>>)
    ensures
        call_outcome(
            match received {
                Ok(b) => Ok(b@),
                Err(e) => Err(e),
            },
        ) == match r {
            Some(Ok(v)) => Some(Ok(v@)),
            Some(Err(e)) => Some(Err(e)),
            None => None::<Result<Seq<u8>, ProxyError>>,
        },
{
    match received {
        Err(RecvError::TimeOut) => None,
        Err(RecvError::Termination) => Some(Err(ProxyError::Terminated)),
        Ok(b) => match decode_response(b.as_slice()) {
            Some(Ok(result)) => Some(Ok(result)),
            Some(Err(_)) => Some(Err(ProxyError::NoSuchObject)),
            None => Some(Err(ProxyError::Protocol)),
        },
    }
}

/// Exporter side's interface to a service object: runs one call given by
/// its method ordinal and argument bytes, and returns the result bytes.
pub trait Dispatch: Send + Sync {
    /// Whether the object may answer a call of `method` with `args` by
    /// returning `result`. An object that states nothing may return anything.
    open spec fn dispatch_returns(&self, method: MethodId, args: Seq<u8>, result: Seq<u8>) -> bool {
        true
    }

    fn dispatch_and_call(&self, method: MethodId, args: &[u8]) -> (r: Vec<u8>)
        ensures
            self.dispatch_returns(method, args@, r@),
    ;
}

/// A shared object dispatches as the object itself.
impl<T: Dispatch + ?Sized> Dispatch for Arc<T> {
    open spec fn dispatch_returns(&self, method: MethodId, args: Seq<u8>, result: Seq<u8>) -> bool {
        (**self).dispatch_returns(method, args, result)
    }

    fn dispatch_and_call(&self, method: MethodId, args: &[u8]) -> (r: Vec<u8>) {
        (**self).dispatch_and_call(method, args)
    }
}

/// A closure taking the method ordinal and argument bytes, as a dispatch
/// capability. The closure must accept every call.
pub struct DispatchFn<F: Fn(MethodId, &[u8]) -> Vec<u8> + Send + Sync> {
    f: F,
}

impl<F: Fn(MethodId, &[u8]) -> Vec<u8> + Send + Sync> DispatchFn<F> {
    #[verifier::type_invariant]
    spec fn accepts_every_call(&self) -> bool {
        forall|method: MethodId, args: &[u8]| #[trigger] self.f.requires((method, args))
    }

    /// The closure that answers the calls.
    pub closed spec fn func(&self) -> F {
        self.f
    }

    pub fn new(f: F) -> (r: Self)
        requires
            forall|method: MethodId, args: &[u8]| #[trigger] f.requires((method, args)),
        ensures
            r.func() == f,
    {
        DispatchFn { f }
    }
}

impl<F: Fn(MethodId, &[u8]) -> Vec<u8> + Send + Sync> Dispatch for DispatchFn<F> {
    /// The closure, called with `method` and `args`, returned `result`.
    open spec fn dispatch_returns(&self, method: MethodId, args: Seq<u8>, result: Seq<u8>) -> bool {
        exists|a: &[u8], v: Vec<u8>|
            a@ == args && v@ == result && #[trigger] self.func().ensures((method, a), v)
    }

    /// Calls the closure once with `method` and `args` and returns what it returned.
    fn dispatch_and_call(&self, method: MethodId, args: &[u8]) -> (r: Vec<u8>)
        ensures
            self.func().ensures((method, args), r),
    {
        proof {
            use_type_invariant(self);
        }
        let r = (self.f)(method, args);
        assert(self.func().ensures((method, args), r));
        r
    }
}

/// Marker for what can be exported or imported: shareable across threads.
pub trait Service: Send + Sync {}

/// Builds a proxy of service `T` from a handle received from a peer.
pub trait ImportService<T: ?Sized + Service> {
    fn import(port: PortRef, handle: HandleToExchange) -> Arc<T>;
}

/// Exports an object of service `T` into a registry.
pub trait ExportService<T: ?Sized + Service> {
    fn export(port: &mut Registry<Arc<dyn Dispatch>>, object: Arc<T>) -> Option<HandleToExchange>;
}

} // verus!

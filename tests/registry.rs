use remote_trait_object::ipc::RecvError;
use remote_trait_object::port::{CallError, HandleError, PortKeys, Registry, ServeStep};
use remote_trait_object::service::{
    call_step, Dispatch, DispatchFn, Handle, HandleToExchange, MethodId, PortRef, ProxyError,
};
use remote_trait_object::wire::{decode_response, encode_call, encode_response};
use std::sync::atomic::{AtomicU64, Ordering};
use std::sync::Arc;

struct Counter {
    value: AtomicU64,
    calls: AtomicU64,
}

impl Dispatch for Counter {
    fn dispatch_and_call(&self, method: MethodId, _args: &[u8]) -> Vec<u8> {
        self.calls.fetch_add(1, Ordering::SeqCst);
        match method {
            0 => {
                let v = self.value.fetch_add(1, Ordering::SeqCst) + 1;
                v.to_le_bytes().to_vec()
            }
            _ => Vec::new(),
        }
    }
}

struct Echo;

impl Dispatch for Echo {
    fn dispatch_and_call(&self, method: MethodId, args: &[u8]) -> Vec<u8> {
        let mut r = method.to_le_bytes().to_vec();
        r.extend_from_slice(args);
        r
    }
}

fn registry(key: u64) -> Registry<Arc<dyn Dispatch>> {
    Registry::new(PortRef { key })
}

#[test]
fn new_singleton_has_id_zero() {
    assert_eq!(HandleToExchange::new_singleton(), HandleToExchange(0));
}

#[test]
fn careful_new_keeps_id_and_port() {
    let h = Handle::careful_new(HandleToExchange(12), PortRef { key: 3 });
    assert_eq!(h.id, 12);
    assert_eq!(h.port, PortRef { key: 3 });
}

#[test]
fn exports_get_distinct_increasing_ids() {
    let mut reg = registry(1);
    let a = reg.export(Arc::new(Echo)).unwrap();
    let b = reg.export(Arc::new(Echo)).unwrap();
    assert_eq!(a, HandleToExchange(0));
    assert_eq!(b, HandleToExchange(1));
    assert!(reg.is_live(a.0) && reg.is_live(b.0));
    assert!(reg.unexport(a).is_some());
    let c = reg.export(Arc::new(Echo)).unwrap();
    assert_ne!(c, a);
    assert_ne!(c, b);
}

#[test]
fn unknown_and_unexported_ids_are_not_found() {
    let mut reg = registry(1);
    assert_eq!(reg.dispatch_and_call(5, 0, &[]), Err(CallError::NoSuchObject));
    let h = reg.export(Arc::new(Echo)).unwrap();
    assert_eq!(reg.dispatch_and_call(h.0, 1, &[9]), Ok(vec![1, 0, 0, 0, 9]));
    assert!(reg.unexport(h).is_some());
    assert!(reg.unexport(h).is_none());
    assert!(!reg.is_live(h.0));
    assert!(reg.resolve(h.0).is_none());
    assert_eq!(reg.dispatch_and_call(h.0, 1, &[9]), Err(CallError::NoSuchObject));
    let answer = reg.serve(&encode_call(h.0, 1, &[9])).unwrap();
    assert_eq!(answer, encode_response(&Err(CallError::NoSuchObject)));
}

#[test]
fn serve_rejects_malformed_call() {
    let mut reg = registry(1);
    reg.export(Arc::new(Echo)).unwrap();
    assert_eq!(reg.serve(&[0, 0, 0]), None);
}

#[test]
fn call_reaches_object_and_result_comes_back() {
    let mut reg = registry(4);
    let h = reg.export(Arc::new(Echo)).unwrap();
    let handle = Handle::careful_new(h, reg.port_ref());
    let msg = handle.call_message(&reg, 6, &[1, 2]).unwrap();
    assert_eq!(msg, encode_call(h.0, 6, &[1, 2]));
    let answer = reg.serve(&msg).unwrap();
    assert_eq!(decode_response(&answer), Some(Ok(vec![6, 0, 0, 0, 1, 2])));
}

#[test]
fn handle_of_another_registry_fails() {
    let reg = registry(4);
    let handle = Handle::careful_new(HandleToExchange(0), PortRef { key: 5 });
    assert_eq!(handle.call_message(&reg, 0, &[]), Err(HandleError::PortGone));
}

#[test]
fn counter_scenario() {
    let mut reg = registry(1);
    for _ in 0..7 {
        reg.export(Arc::new(Echo)).unwrap();
    }
    let counter = Arc::new(Counter { value: AtomicU64::new(0), calls: AtomicU64::new(0) });
    let h = reg.export(counter.clone()).unwrap();
    assert_eq!(h, HandleToExchange(7));
    let proxy = Handle::careful_new(h, reg.port_ref());
    let msg = proxy.call_message(&reg, 0, &[]).unwrap();
    assert_eq!(msg, vec![7, 0, 0, 0, 0, 0, 0, 0]);
    let mut last = 0u64;
    for _ in 0..3 {
        let msg = proxy.call_message(&reg, 0, &[]).unwrap();
        let answer = reg.serve(&msg).unwrap();
        let bytes = match decode_response(&answer) {
            Some(Ok(b)) => b,
            other => panic!("unexpected response {:?}", other),
        };
        let v = u64::from_le_bytes(bytes.try_into().unwrap());
        assert!(v > last);
        last = v;
    }
    assert_eq!(last, 3);
    assert_eq!(counter.calls.load(Ordering::SeqCst), 3);
    let second = reg.export(Arc::new(Echo)).unwrap();
    assert_ne!(second, HandleToExchange(7));
}

#[test]
fn closure_dispatches() {
    let mut reg = registry(2);
    let f = DispatchFn::new(|m: MethodId, a: &[u8]| vec![m as u8, a.len() as u8]);
    let h = reg.export(Arc::new(f)).unwrap();
    assert_eq!(reg.dispatch_and_call(h.0, 3, &[0, 0]), Ok(vec![3, 2]));
}

#[test]
fn port_keys_are_fresh() {
    let mut keys = PortKeys::new();
    let a = keys.fresh().unwrap();
    let b = keys.fresh().unwrap();
    assert_eq!(a, PortRef { key: 0 });
    assert_eq!(b, PortRef { key: 1 });
    let mut reg_a = registry(a.key);
    let reg_b = registry(b.key);
    let h = reg_a.export(Arc::new(Echo)).unwrap();
    let handle = Handle::careful_new(h, reg_a.port_ref());
    assert_eq!(handle.call_message(&reg_b, 0, &[]), Err(HandleError::PortGone));
}

#[test]
fn call_step_decisions() {
    assert_eq!(call_step(Err(RecvError::TimeOut)), None);
    assert_eq!(call_step(Err(RecvError::Termination)), Some(Err(ProxyError::Terminated)));
    assert_eq!(call_step(Ok(encode_response(&Ok(vec![4, 5])))), Some(Ok(vec![4, 5])));
    assert_eq!(
        call_step(Ok(encode_response(&Err(CallError::NoSuchObject)))),
        Some(Err(ProxyError::NoSuchObject))
    );
    assert_eq!(call_step(Ok(vec![])), Some(Err(ProxyError::Protocol)));
}

#[test]
fn serve_step_decisions() {
    let mut reg = registry(1);
    let h = reg.export(Arc::new(Echo)).unwrap();
    assert_eq!(reg.serve_step(Err(RecvError::TimeOut)), ServeStep::Wait);
    assert_eq!(reg.serve_step(Err(RecvError::Termination)), ServeStep::Stop);
    assert_eq!(reg.serve_step(Ok(vec![1])), ServeStep::Fault);
    assert_eq!(
        reg.serve_step(Ok(encode_call(h.0, 2, &[8]))),
        ServeStep::Reply(encode_response(&Ok(vec![2, 0, 0, 0, 8])))
    );
    assert_eq!(
        reg.serve_step(Ok(encode_call(h.0 + 1, 2, &[8]))),
        ServeStep::Reply(encode_response(&Err(CallError::NoSuchObject)))
    );
}

#[test]
fn closure_gets_its_own_method_and_args() {
    let f = DispatchFn::new(|m: MethodId, a: &[u8]| {
        let mut r = vec![m as u8];
        r.extend_from_slice(a);
        r
    });
    assert_eq!(f.dispatch_and_call(9, &[1, 2, 3]), vec![9, 1, 2, 3]);
    assert_eq!(f.dispatch_and_call(0, &[]), vec![0]);
}

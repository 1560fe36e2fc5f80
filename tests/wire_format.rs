use remote_trait_object::port::CallError;
use remote_trait_object::wire::{
    decode_call, decode_response, encode_call, encode_response, NO_SUCH_OBJECT_TAG, RETURNED_TAG,
};

#[test]
fn call_message_layout() {
    let b = encode_call(7, 0, &[]);
    assert_eq!(b, vec![7, 0, 0, 0, 0, 0, 0, 0]);
    let b = encode_call(0x0403_0201, 0xa0b0_c0d0, &[42, 43]);
    assert_eq!(b, vec![1, 2, 3, 4, 0xd0, 0xc0, 0xb0, 0xa0, 42, 43]);
}

#[test]
fn call_message_round_trip() {
    let b = encode_call(u32::MAX, 3, &[1, 2, 3]);
    let m = decode_call(&b).unwrap();
    assert_eq!(m.object, u32::MAX);
    assert_eq!(m.method, 3);
    assert_eq!(m.args, vec![1, 2, 3]);
}

#[test]
fn short_call_message_is_rejected() {
    assert!(decode_call(&[]).is_none());
    assert!(decode_call(&[1, 2, 3, 4, 5, 6, 7]).is_none());
    let m = decode_call(&[1, 0, 0, 0, 2, 0, 0, 0]).unwrap();
    assert_eq!((m.object, m.method), (1, 2));
    assert!(m.args.is_empty());
}

#[test]
fn response_layout_and_round_trip() {
    let ok = encode_response(&Ok(vec![5, 6]));
    assert_eq!(ok, vec![RETURNED_TAG, 5, 6]);
    assert_eq!(decode_response(&ok), Some(Ok(vec![5, 6])));
    let nf = encode_response(&Err(CallError::NoSuchObject));
    assert_eq!(nf, vec![NO_SUCH_OBJECT_TAG]);
    assert_eq!(decode_response(&nf), Some(Err(CallError::NoSuchObject)));
    assert_eq!(decode_response(&[RETURNED_TAG]), Some(Ok(vec![])));
}

#[test]
fn malformed_response_is_rejected() {
    assert_eq!(decode_response(&[]), None);
    assert_eq!(decode_response(&[NO_SUCH_OBJECT_TAG, 0]), None);
    assert_eq!(decode_response(&[2, 1]), None);
}

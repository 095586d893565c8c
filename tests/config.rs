use netcharacon::config::{get_dev_private_key, get_dev_protocol_id, user_data_from_session};

#[test]
fn dev_protocol_id_is_fixed() {
    assert_eq!(get_dev_protocol_id(), 0x655ea1eecade99ad);
}

#[test]
fn dev_private_key_is_fixed() {
    let k = get_dev_private_key();
    assert_eq!(k[0], 0x78);
    assert_eq!(k[4], 0xa2);
    assert_eq!(k[5], 0x0b);
    assert_eq!(k[31], 0xaf);
}

#[test]
fn user_data_carries_session_then_zeros() {
    let session: [u8; 16] = [1, 2, 3, 4, 5, 6, 7, 8, 9, 10, 11, 12, 13, 14, 15, 16];
    let d = user_data_from_session(&session);
    assert_eq!(&d[0..16], &session[..]);
    assert!(d[16..].iter().all(|b| *b == 0));
}

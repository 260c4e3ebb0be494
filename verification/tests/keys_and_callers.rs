use vetkd_notes::principal::{caller_name, whoami};
use vetkd_notes::rules::NotesError;
use vetkd_notes::vetkd::{
    bls12_381_test_key_1, encode_key_reply, note_derivation_id, note_id_be_bytes,
    note_key_derivation_path, plan_encrypted_key_request, symmetric_key_verification_key_request,
    KeyRequestNote, VetKDCurve,
};

#[test]
fn hex_replies() {
    assert_eq!(encode_key_reply(&[0x00, 0xff, 0x10, 0xab]), "00ff10ab");
    assert_eq!(encode_key_reply(&[]), "");
}

#[test]
fn be_bytes_of_ids() {
    let mut expected = vec![0u8; 16];
    expected[15] = 1;
    assert_eq!(note_id_be_bytes(1), expected);
    assert_eq!(note_id_be_bytes(0x0102), {
        let mut e = vec![0u8; 16];
        e[14] = 1;
        e[15] = 2;
        e
    });
    assert_eq!(note_id_be_bytes(u128::MAX), vec![0xffu8; 16]);
}

#[test]
fn derivation_ids() {
    let mut expected = vec![0u8; 16];
    expected[15] = 5;
    expected.extend_from_slice(b"alice");
    assert_eq!(note_derivation_id(5, &"alice".to_string()), expected);
}

#[test]
fn law_derivation_ids_differ_for_different_notes() {
    assert_ne!(note_derivation_id(1, &"ab".to_string()), note_derivation_id(2, &"ab".to_string()));
    assert_ne!(note_derivation_id(1, &"ab".to_string()), note_derivation_id(1, &"ac".to_string()));
}

#[test]
fn key_ids_and_paths() {
    let k = bls12_381_test_key_1();
    assert_eq!(k.curve, VetKDCurve::Bls12_381_G2);
    assert_eq!(k.name, "insecure_test_key_1");
    assert_eq!(note_key_derivation_path(), vec![b"note_symmetric_key".to_vec()]);
    let r = symmetric_key_verification_key_request();
    assert!(r.canister_id.is_none());
    assert_eq!(r.derivation_path, vec![b"note_symmetric_key".to_vec()]);
    assert_eq!(r.key_id.name, "insecure_test_key_1");
}

#[test]
fn encrypted_key_requests() {
    let caller = "bob".to_string();
    assert_eq!(
        plan_encrypted_key_request(3, &caller, None, vec![1]).err(),
        Some(NotesError::NoteDoesNotExist(3))
    );
    let denied = KeyRequestNote { owner: "alice".to_string(), lock_authorized: false };
    assert_eq!(
        plan_encrypted_key_request(3, &caller, Some(denied), vec![1]).err(),
        Some(NotesError::UnauthorizedKeyRequest("bob".to_string()))
    );
    let ok = KeyRequestNote { owner: "alice".to_string(), lock_authorized: true };
    let q = plan_encrypted_key_request(3, &caller, Some(ok), vec![9, 8]).ok().unwrap();
    assert_eq!(q.derivation_id, note_derivation_id(3, &"alice".to_string()));
    assert_eq!(q.derivation_path, vec![b"note_symmetric_key".to_vec()]);
    assert_eq!(q.key_id.curve, VetKDCurve::Bls12_381_G2);
    assert_eq!(q.encryption_public_key, vec![9, 8]);
}

#[test]
fn callers() {
    assert_eq!(caller_name(&[4]).err(), Some(NotesError::AnonymousCaller));
    assert_eq!(whoami(&[4]), "2vxsx-fae");
    assert_eq!(caller_name(&[]).unwrap(), "aaaaa-aa");
    assert_eq!(whoami(&[]), "aaaaa-aa");
    let name = caller_name(&[4, 0]).unwrap();
    assert_ne!(name, "2vxsx-fae");
}

use vstd::prelude::*;
use vstd::string::StringSliceAdditionalSpecFns;
use vstd::utf8::encode_utf8;
use crate::rules::NotesError;

verus! {

/// The curve of a vetKD key.
#[allow(non_camel_case_types)]
#[derive(Debug, Clone, Copy, PartialEq, Eq)]
pub enum VetKDCurve {
    Bls12_381_G2,
}

/// Which vetKD master key to derive from.
pub struct VetKDKeyId {
    pub curve: VetKDCurve,
    pub name: String,
}

/// A request for the public (verification) key of a derivation path.
/// `canister_id` holds a principal's bytes, `None` meaning the calling canister.
pub struct VetKDPublicKeyRequest {
    pub canister_id: Option<Vec<u8>>,
    pub derivation_path: Vec<Vec<u8>>,
    pub key_id: VetKDKeyId,
}

/// A request for a key derived for `derivation_id` and encrypted under
/// `encryption_public_key`.
pub struct VetKDDeriveEncryptedKeyRequest {
    pub derivation_id: Vec<u8>,
    pub derivation_path: Vec<Vec<u8>>,
    pub key_id: VetKDKeyId,
    pub encryption_public_key: Vec<u8>,
}

/// The note keys' derivation path: the single element "note_symmetric_key".
pub open spec fn note_key_path() -> Seq<u8> {
    "note_symmetric_key".spec_bytes()
}

/// The name of the master key the canister derives from.
pub open spec fn test_key_name() -> Seq<char> {
    "insecure_test_key_1"@
}

/// The 16 bytes of `x`, most significant first.
pub open spec fn u128_be_bytes(x: u128) -> Seq<u8> {
    Seq::new(16, |i: int| (x >> ((120 - 8 * i) as u32)) as u8)
}

/// The hex digit of a value below 16, lower case.
pub open spec fn hex_digit(d: u8) -> char {
    if d < 10 {
        (48 + d) as char
    } else {
        (87 + d) as char
    }
}

/// `bytes` in lower-case hex, two digits per byte, high nibble first.
pub open spec fn hex_text(bytes: Seq<u8>) -> Seq<char>
    decreases bytes.len(),
{
    if bytes.len() == 0 {
        Seq::empty()
    } else {
        seq![hex_digit(bytes[0] / 16), hex_digit(bytes[0] % 16)] + hex_text(bytes.drop_first())
    }
}

/// Calls `hex::encode`, which writes each byte as two lower-case hex digits,
/// high nibble first; trusted to give `hex_text(bytes@)`.
#[verifier::external_body]
fn hex_encode(bytes: &[u8]) -> (r: String)
    ensures
        r@ == hex_text(bytes@),
{
    hex::encode(bytes)
}

/// The key id of the test key on the BLS12-381 G2 curve.
pub fn bls12_381_test_key_1() -> (k: VetKDKeyId)
    ensures
        k.curve == VetKDCurve::Bls12_381_G2,
        k.name@ == test_key_name(),
{
    VetKDKeyId { curve: VetKDCurve::Bls12_381_G2, name: "insecure_test_key_1".to_owned() }
}

/// The derivation path of the note keys.
pub fn note_key_derivation_path() -> (p: Vec<Vec<u8>>)
    ensures
        p@.len() == 1,
        p@[0]@ == note_key_path(),
{
    let mut p: Vec<Vec<u8>> = Vec::new();
    p.push(vstd::slice::slice_to_vec("note_symmetric_key".as_bytes()));
    p
}

/// The request for the note keys' verification key.
pub fn symmetric_key_verification_key_request() -> (r: VetKDPublicKeyRequest)
    ensures
        r.canister_id is None,
        r.derivation_path@.len() == 1,
        r.derivation_path@[0]@ == note_key_path(),
        r.key_id.curve == VetKDCurve::Bls12_381_G2,
        r.key_id.name@ == test_key_name(),
{
    VetKDPublicKeyRequest {
        canister_id: None,
        derivation_path: note_key_derivation_path(),
        key_id: bls12_381_test_key_1(),
    }
}

/// The 16 big-endian bytes of `x`.
pub fn note_id_be_bytes(x: u128) -> (r: Vec<u8>)
    ensures
        r@ == u128_be_bytes(x),
{
    let mut out: Vec<u8> = Vec::new();
    let mut i: u32 = 0;
    while i < 16
        invariant
            i <= 16,
            out@ == u128_be_bytes(x).take(i as int),
        decreases 16 - i,
    {
        let shift: u32 = 120 - 8 * i;
        let byte = (x >> shift) as u8;
        assert(byte == u128_be_bytes(x)[i as int]);
        out.push(byte);
        assert(u128_be_bytes(x).take(i + 1) =~= u128_be_bytes(x).take(i as int).push(byte));
        i = i + 1;
    }
    assert(u128_be_bytes(x).take(16) =~= u128_be_bytes(x));
    out
}

/// The derivation id of a note's key: the note id's 16 big-endian bytes,
/// then the owner's name in UTF-8. The fixed-size id makes it prefix-free.
pub fn note_derivation_id(note_id: u128, owner: &String) -> (r: Vec<u8>)
    ensures
        r@ == u128_be_bytes(note_id) + encode_utf8(owner@),
{
    let mut out = note_id_be_bytes(note_id);
    let bytes = owner.as_str().as_bytes();
    let ghost start = out@;
    let mut i: usize = 0;
    while i < bytes.len()
        invariant
            i <= bytes@.len(),
            out@ == start + bytes@.take(i as int),
        decreases bytes.len() - i,
    {
        out.push(bytes[i]);
        assert(bytes@.take(i + 1) =~= bytes@.take(i as int).push(bytes@[i as int]));
        i = i + 1;
    }
    assert(bytes@.take(bytes@.len() as int) =~= bytes@);
    out
}

/// What `encrypted_symmetric_key_for_note` reads of the stored note: its owner,
/// and whether the note let the caller take its key (which locks the note).
pub struct KeyRequestNote {
    pub owner: String,
    pub lock_authorized: bool,
}

/// Plans `encrypted_symmetric_key_for_note(note_id, encryption_public_key)` by
/// `caller`; `note` is `None` when no note is stored under `note_id`.
pub fn plan_encrypted_key_request(
    note_id: u128,
    caller: &String,
    note: Option<KeyRequestNote>,
    encryption_public_key: Vec<u8>,
) -> (r: Result<VetKDDeriveEncryptedKeyRequest, NotesError>)
    ensures
        note is None ==> r == Err::<VetKDDeriveEncryptedKeyRequest, NotesError>(
            NotesError::NoteDoesNotExist(note_id),
        ),
        note matches Some(n) ==> (!n.lock_authorized ==> (r matches Err(
            NotesError::UnauthorizedKeyRequest(u),
        ) && u@ == caller@)),
        note matches Some(n) ==> (n.lock_authorized ==> (r matches Ok(q) && {
            &&& q.derivation_id@ == u128_be_bytes(note_id) + encode_utf8(n.owner@)
            &&& q.derivation_path@.len() == 1
            &&& q.derivation_path@[0]@ == note_key_path()
            &&& q.key_id.curve == VetKDCurve::Bls12_381_G2
            &&& q.key_id.name@ == test_key_name()
            &&& q.encryption_public_key@ == encryption_public_key@
        })),
{
    match note {
        None => Err(NotesError::NoteDoesNotExist(note_id)),
        Some(n) => {
            if !n.lock_authorized {
                return Err(NotesError::UnauthorizedKeyRequest(caller.clone()));
            }
            Ok(VetKDDeriveEncryptedKeyRequest {
                derivation_id: note_derivation_id(note_id, &n.owner),
                derivation_path: note_key_derivation_path(),
                key_id: bls12_381_test_key_1(),
                encryption_public_key,
            })
        },
    }
}

/// A key from a vetKD reply, as the canister hands it out: lower-case hex.
pub fn encode_key_reply(key: &[u8]) -> (r: String)
    ensures
        r@ == hex_text(key@),
{
    hex_encode(key)
}


/// Equal big-endian bytes come from equal ids.
pub proof fn lemma_be_bytes_injective(x: u128, y: u128)
    requires
        u128_be_bytes(x) == u128_be_bytes(y),
    ensures
        x == y,
{
    let bx = u128_be_bytes(x);
    let by = u128_be_bytes(y);
    assert(bx[0] == by[0] && bx[1] == by[1] && bx[2] == by[2] && bx[3] == by[3]);
    assert(bx[4] == by[4] && bx[5] == by[5] && bx[6] == by[6] && bx[7] == by[7]);
    assert(bx[8] == by[8] && bx[9] == by[9] && bx[10] == by[10] && bx[11] == by[11]);
    assert(bx[12] == by[12] && bx[13] == by[13] && bx[14] == by[14] && bx[15] == by[15]);
    assert(x == y) by (bit_vector)
        requires
            (x >> 120u32) as u8 == (y >> 120u32) as u8,
            (x >> 112u32) as u8 == (y >> 112u32) as u8,
            (x >> 104u32) as u8 == (y >> 104u32) as u8,
            (x >> 96u32) as u8 == (y >> 96u32) as u8,
            (x >> 88u32) as u8 == (y >> 88u32) as u8,
            (x >> 80u32) as u8 == (y >> 80u32) as u8,
            (x >> 72u32) as u8 == (y >> 72u32) as u8,
            (x >> 64u32) as u8 == (y >> 64u32) as u8,
            (x >> 56u32) as u8 == (y >> 56u32) as u8,
            (x >> 48u32) as u8 == (y >> 48u32) as u8,
            (x >> 40u32) as u8 == (y >> 40u32) as u8,
            (x >> 32u32) as u8 == (y >> 32u32) as u8,
            (x >> 24u32) as u8 == (y >> 24u32) as u8,
            (x >> 16u32) as u8 == (y >> 16u32) as u8,
            (x >> 8u32) as u8 == (y >> 8u32) as u8,
            (x >> 0u32) as u8 == (y >> 0u32) as u8,
    ;
}

/// Distinct notes get distinct key derivation ids: the derivation id
/// determines both the note id and the owner's name.
pub proof fn law_derivation_id_is_injective(id1: u128, owner1: Seq<char>, id2: u128, owner2: Seq<char>)
    requires
        u128_be_bytes(id1) + encode_utf8(owner1) == u128_be_bytes(id2) + encode_utf8(owner2),
    ensures
        id1 == id2,
        owner1 == owner2,
{
    let a = u128_be_bytes(id1) + encode_utf8(owner1);
    let b = u128_be_bytes(id2) + encode_utf8(owner2);
    assert(a.subrange(0, 16) =~= u128_be_bytes(id1));
    assert(b.subrange(0, 16) =~= u128_be_bytes(id2));
    lemma_be_bytes_injective(id1, id2);
    assert(a.subrange(16, a.len() as int) =~= encode_utf8(owner1));
    assert(b.subrange(16, b.len() as int) =~= encode_utf8(owner2));
    vstd::utf8::encode_utf8_decode_utf8(owner1);
    vstd::utf8::encode_utf8_decode_utf8(owner2);
}

} // verus!

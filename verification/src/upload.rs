use vstd::prelude::*;

use crate::errors::InputError;

verus! {

/// An ASCII lowercase hexadecimal digit.
pub open spec fn is_hex_byte(b: u8) -> bool {
    (48 <= b <= 57) || (97 <= b <= 102)
}

/// The shape of an artifact identifier: exactly 32 lowercase hexadecimal
/// characters, as ASCII bytes.
pub open spec fn artifact_id_shape(s: Seq<u8>) -> bool {
    s.len() == 32 && forall|i: int| 0 <= i < 32 ==> is_hex_byte(#[trigger] s[i])
}

/// Relies on `uuid::Uuid::new_v4` and its simple formatting: a fresh
/// random identifier rendered as exactly 32 lowercase hexadecimal digits.
#[verifier::external_body]
fn fresh_uuid_hex() -> (r: Vec<u8>)
    ensures
        artifact_id_shape(r@),
{
    uuid::Uuid::new_v4().simple().to_string().into_bytes()
}

/// Server-generated unique identifier for an uploaded artifact, as ASCII
/// bytes.
pub fn fresh_artifact_id() -> (r: Vec<u8>)
    ensures
        artifact_id_shape(r@),
{
    fresh_uuid_hex()
}

/// Checks that bytes have the shape of an artifact identifier.
pub fn is_artifact_id(s: &Vec<u8>) -> (r: bool)
    ensures
        r == artifact_id_shape(s@),
{
    if s.len() != 32 {
        return false;
    }
    let mut i: usize = 0;
    while i < 32
        invariant
            i <= 32,
            s@.len() == 32,
            forall|k: int| 0 <= k < i ==> is_hex_byte(#[trigger] s@[k]),
        decreases 32 - i,
    {
        let b = s[i];
        if !((48 <= b && b <= 57) || (97 <= b && b <= 102)) {
            return false;
        }
        i += 1;
    }
    true
}

/// Upload boundary rule: one invocation accepts exactly one file.  Called
/// with the number of files already received when another arrives; a
/// second file is a hard failure, and the upload must not silently process
/// only the first.
pub fn admit_file(files_already_received: u64) -> (r: Result<(), InputError>)
    ensures
        r is Ok <==> files_already_received == 0,
        r is Err ==> r == Err::<(), InputError>(InputError::MultipleFiles),
{
    if files_already_received == 0 {
        Ok(())
    } else {
        Err(InputError::MultipleFiles)
    }
}

} // verus!

use vstd::prelude::*;
use crate::errors::ImportError;

verus! {

/// The SHA-256 digest of a byte sequence, rendered as a hex string.  A
/// function of the bytes alone; what it is on given bytes is only learned
/// by computing it.
pub uninterp spec fn sha256_hex_of(bytes: Seq<u8>) -> Seq<char>;

/// Relies on sha256::digest: the SHA-256 digest of the bytes as a hex
/// string, a function of the bytes alone.
#[verifier::external_body]
fn sha256_hex(bytes: &Vec<u8>) -> (r: String)
    ensures
        r@ == sha256_hex_of(bytes@),
{
    sha256::digest(bytes)
}

/// Compare the file's recomputed fingerprint with the declared one.
/// Succeeds exactly when they agree; the error carries both digests.
pub fn validate_integrity(contents: &Vec<u8>, declared: &String) -> (r: Result<(), ImportError>)
    ensures
        r is Ok <==> sha256_hex_of(contents@) == declared@,
        r matches Err(e) ==> (e matches ImportError::IntegrityMismatch {
            computed,
            declared: d,
        } && computed@ == sha256_hex_of(contents@) && d@ == declared@),
{
    let computed = sha256_hex(contents);
    if computed == *declared {
        Ok(())
    } else {
        Err(ImportError::IntegrityMismatch { computed, declared: declared.clone() })
    }
}

} // verus!

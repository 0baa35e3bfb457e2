//! Types shared with the networking collaborator: the 32-byte digest and
//! the response-canonicalization capability tag.

use vstd::prelude::*;

verus! {

/// The number of bytes in a block or transaction digest.
pub open spec fn digest_len() -> nat {
    32
}

/// A 32-byte digest identifying a block or a transaction.
///
/// The bytes are kept behind a fallible constructor: a value of this type
/// always holds exactly 32 bytes, and under- or over-length byte strings
/// are rejected at construction.
#[derive(Clone, Debug)]
pub struct Digest {
    bytes: Vec<u8>,
}

impl View for Digest {
    type V = Seq<u8>;

    closed spec fn view(&self) -> Seq<u8> {
        self.bytes@
    }
}

impl Digest {
    /// A digest holds exactly 32 bytes.
    pub open spec fn wf(&self) -> bool {
        self@.len() == digest_len()
    }

    /// Validates the length and wraps the bytes; any byte string that is
    /// not exactly 32 bytes long is rejected.
    pub fn from_bytes(bytes: Vec<u8>) -> (r: Option<Digest>)
        ensures
            r is Some <==> bytes@.len() == digest_len(),
            r matches Some(h) ==> h@ == bytes@ && h.wf(),
    {
        if bytes.len() == 32 {
            Some(Digest { bytes })
        } else {
            None
        }
    }

    /// The digest's bytes.
    pub fn as_bytes(&self) -> (r: &Vec<u8>)
        ensures
            r@ == self@,
    {
        &self.bytes
    }
}

impl PartialEq for Digest {
    fn eq(&self, other: &Digest) -> (r: bool) {
        let n = self.bytes.len();
        if n != other.bytes.len() {
            return false;
        }
        let mut i: usize = 0;
        while i < n
            invariant
                n == self.bytes.len(),
                n == other.bytes.len(),
                i <= n,
                forall|j: int| 0 <= j < i ==> self.bytes@[j] == other.bytes@[j],
            decreases n - i,
        {
            if self.bytes[i] != other.bytes[i] {
                return false;
            }
            i = i + 1;
        }
        proof {
            assert(self.bytes@ =~= other.bytes@);
        }
        true
    }
}

impl vstd::std_specs::cmp::PartialEqSpecImpl for Digest {
    open spec fn obeys_eq_spec() -> bool {
        true
    }

    open spec fn eq_spec(&self, other: &Digest) -> bool {
        self@ == other@
    }
}

/// The canonicalization a raw provider response must pass through before
/// it may influence replicated computation. The transform itself is run by
/// the networking collaborator; this core only names it.
#[derive(Clone, Copy, Debug, PartialEq, Eq, Structural)]
pub enum ResponseTransform {
    TransactionReceipt,
}

/// A payload fetched over HTTP from a chain provider. A payload type
/// advertises which canonicalization, if any, the networking layer must
/// apply to raw responses before they cross the consensus boundary.
pub trait HttpResponsePayload {
    fn response_transform() -> Option<ResponseTransform>;
}

} // verus!

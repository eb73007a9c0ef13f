//! Commit identifiers and their hexadecimal text form.

use vstd::prelude::*;
use vstd::std_specs::cmp::PartialEqSpecImpl;
use vstd::string::*;

use crate::text::{append_hex, hex_of};

verus! {

/// The number that the first eight bytes of an identifier make, the first
/// byte counting most. Identifiers with different prefixes are different.
pub open spec fn prefix_of(id: Seq<u8>) -> int {
    ((((((id[0] as int * 256 + id[1] as int) * 256 + id[2] as int) * 256 + id[3] as int) * 256
        + id[4] as int) * 256 + id[5] as int) * 256 + id[6] as int) * 256 + id[7] as int
}

/// A commit identifier: twenty opaque bytes derived from the commit's content.
#[derive(Clone, Copy, Debug)]
pub struct CommitId {
    bytes: [u8; 20],
}

impl View for CommitId {
    type V = Seq<u8>;

    closed spec fn view(&self) -> Seq<u8> {
        self.bytes@
    }
}

impl PartialEq for CommitId {
    /// Two identifiers are equal when their bytes are.
    fn eq(&self, other: &CommitId) -> (r: bool) {
        let mut i: usize = 0;
        while i < 20
            invariant
                i <= 20,
                forall|k: int| 0 <= k < i ==> self.bytes@[k] == other.bytes@[k],
            decreases 20 - i,
        {
            if self.bytes[i] != other.bytes[i] {
                return false;
            }
            i += 1;
        }
        assert(self.bytes@ =~= other.bytes@);
        true
    }
}

impl Eq for CommitId {

}

impl PartialEqSpecImpl for CommitId {
    open spec fn obeys_eq_spec() -> bool {
        true
    }

    open spec fn eq_spec(&self, other: &CommitId) -> bool {
        self@ == other@
    }
}

impl CommitId {
    /// Every identifier has exactly twenty bytes.
    pub proof fn lemma_len(&self)
        ensures
            self@.len() == 20,
    {
    }

    /// The identifier made of `bytes`, if there are exactly twenty of them.
    pub fn from_bytes(bytes: &[u8]) -> (id: Option<CommitId>)
        ensures
            id is Some <==> bytes@.len() == 20,
            id matches Some(c) ==> c@ == bytes@,
    {
        if bytes.len() != 20 {
            return None;
        }
        let mut out: [u8; 20] = [0u8; 20];
        let mut i: usize = 0;
        while i < 20
            invariant
                i <= 20,
                bytes@.len() == 20,
                forall|k: int| 0 <= k < i ==> out@[k] == bytes@[k],
            decreases 20 - i,
        {
            out[i] = bytes[i];
            i += 1;
        }
        let id = CommitId { bytes: out };
        Some(id)
    }

    /// The twenty bytes of the identifier.
    pub fn to_bytes(&self) -> (bytes: Vec<u8>)
        ensures
            bytes@ == self@,
    {
        let mut bytes: Vec<u8> = Vec::new();
        let mut i: usize = 0;
        while i < 20
            invariant
                i <= 20,
                bytes@ == self@.take(i as int),
            decreases 20 - i,
        {
            bytes.push(self.bytes[i]);
            i += 1;
        }
        bytes
    }

    /// The prefix of the identifier: a quick way to tell most identifiers
    /// apart.
    pub(crate) fn prefix(&self) -> (prefix: u64)
        ensures
            prefix == prefix_of(self@),
    {
        let b = &self.bytes;
        let upper: u64 = ((b[0] as u64 * 256 + b[1] as u64) * 256 + b[2] as u64) * 256
            + b[3] as u64;
        let lower: u64 = ((b[4] as u64 * 256 + b[5] as u64) * 256 + b[6] as u64) * 256
            + b[7] as u64;
        upper * 0x1_0000_0000 + lower
    }

    /// The identifier as forty lower-case hexadecimal digits.
    pub fn to_hex(&self) -> (text: String)
        ensures
            text@ == hex_of(self@),
            text@.len() == 40,
    {
        let mut text = String::new();
        append_hex(&mut text, self.bytes.as_slice());
        text
    }
}

} // verus!

//! A captured 802.11 MAC address: six raw bytes, compared and hashed on the
//! bytes alone — no normalization and no vendor interpretation.

use vstd::prelude::*;

verus! {

/// A fixed six-byte address. Its view is the byte string it was read from.
#[derive(Clone, Copy, Debug, PartialEq, Eq, Hash, Structural)]
pub struct MacAddress {
    pub b0: u8,
    pub b1: u8,
    pub b2: u8,
    pub b3: u8,
    pub b4: u8,
    pub b5: u8,
}

/// Number of raw bytes in an address.
pub const MAC_LEN: usize = 6;

impl View for MacAddress {
    type V = Seq<u8>;

    open spec fn view(&self) -> Seq<u8> {
        seq![self.b0, self.b1, self.b2, self.b3, self.b4, self.b5]
    }
}

/// The address whose bytes start at `start` in `bytes`.
pub open spec fn spec_mac_at(bytes: Seq<u8>, start: int) -> MacAddress {
    MacAddress {
        b0: bytes[start],
        b1: bytes[start + 1],
        b2: bytes[start + 2],
        b3: bytes[start + 3],
        b4: bytes[start + 4],
        b5: bytes[start + 5],
    }
}

impl MacAddress {
    /// Build an address from six bytes in order.
    pub fn new(b0: u8, b1: u8, b2: u8, b3: u8, b4: u8, b5: u8) -> (mac: MacAddress)
        ensures
            mac@ == seq![b0, b1, b2, b3, b4, b5],
    {
        MacAddress { b0, b1, b2, b3, b4, b5 }
    }

    /// Read the six bytes starting at `start` in `buf`.
    pub fn from_slice(buf: &[u8], start: usize) -> (mac: MacAddress)
        requires
            start + MAC_LEN <= buf@.len(),
        ensures
            mac == spec_mac_at(buf@, start as int),
            mac@ =~= buf@.subrange(start as int, start + MAC_LEN),
    {
        MacAddress {
            b0: buf[start],
            b1: buf[start + 1],
            b2: buf[start + 2],
            b3: buf[start + 3],
            b4: buf[start + 4],
            b5: buf[start + 5],
        }
    }

    /// Append the six bytes of this address to `out`.
    pub fn append_to(&self, out: &mut Vec<u8>)
        ensures
            final(out)@ =~= old(out)@ + self@,
    {
        out.push(self.b0);
        out.push(self.b1);
        out.push(self.b2);
        out.push(self.b3);
        out.push(self.b4);
        out.push(self.b5);
    }

    /// Two addresses are equal exactly when their byte strings are.
    pub proof fn lemma_eq_bytes(a: MacAddress, b: MacAddress)
        ensures
            (a == b) <==> (a@ =~= b@),
    {
    }
}

} // verus!

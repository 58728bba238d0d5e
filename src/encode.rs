//! A byte sink with the unsigned LEB128 integer encoding of the binary format.

use vstd::prelude::*;

verus! {

/// The unsigned LEB128 encoding of `v`: seven bits per byte, least
/// significant group first, the high bit set on every byte but the last.
pub open spec fn leb128(v: nat) -> Seq<u8>
    decreases v,
{
    if v < 128 {
        seq![v as u8]
    } else {
        seq![((v % 128) + 128) as u8] + leb128(v / 128)
    }
}

/// Bytes written so far, appended to by each method.
pub struct Encoder {
    bytes: Vec<u8>,
}

impl View for Encoder {
    type V = Seq<u8>;

    closed spec fn view(&self) -> Seq<u8> {
        self.bytes@
    }
}

impl Encoder {
    /// An encoder that holds no bytes.
    pub fn new() -> (r: Encoder)
        ensures
            r@ == Seq::<u8>::empty(),
    {
        Encoder { bytes: Vec::new() }
    }

    /// The bytes written so far.
    pub fn as_bytes(&self) -> (r: &[u8])
        ensures
            r@ == self@,
    {
        self.bytes.as_slice()
    }

    /// Gives up the encoder for the bytes written so far.
    pub fn into_bytes(self) -> (r: Vec<u8>)
        ensures
            r@ == self@,
    {
        self.bytes
    }

    /// Appends one byte.
    pub fn byte(&mut self, b: u8)
        ensures
            final(self)@ == old(self)@.push(b),
    {
        self.bytes.push(b);
    }

    /// Appends the LEB128 encoding of `v`.
    pub fn u32(&mut self, v: u32)
        ensures
            final(self)@ == old(self)@ + leb128(v as nat),
    {
        self.usize(v as usize);
    }

    /// Appends the LEB128 encoding of `v`.
    pub fn usize(&mut self, v: usize)
        ensures
            final(self)@ == old(self)@ + leb128(v as nat),
    {
        let mut x: usize = v;
        while x >= 128
            invariant
                self@ + leb128(x as nat) == old(self)@ + leb128(v as nat),
            decreases x,
        {
            let b: u8 = (x % 128 + 128) as u8;
            proof {
                let prev = self@;
                assert(leb128(x as nat) == seq![b] + leb128((x / 128) as nat));
                assert(prev.push(b) + leb128((x / 128) as nat) == prev + leb128(x as nat));
            }
            self.bytes.push(b);
            x = x / 128;
        }
        proof {
            assert(leb128(x as nat) == seq![x as u8]);
            assert(self@.push(x as u8) == self@ + leb128(x as nat));
        }
        self.bytes.push(x as u8);
    }
}

} // verus!

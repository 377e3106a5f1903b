//! A fixed-length byte buffer with bounds-checked accessors.
use crate::codec::{
    fits, le_bytes, lemma_le_bytes_len, lemma_reinterpret_16, lemma_reinterpret_32,
    lemma_reinterpret_8, lemma_single_byte, read_le, read_u16, read_u32, splice, to_signed,
    to_unsigned, write_le, write_u16, write_u32,
};
use vstd::prelude::*;

verus! {

/// The one way an accessor can fail: the requested byte range does not lie
/// within the buffer.
#[derive(Debug, Clone, Copy, PartialEq, Eq, Structural)]
pub enum BufferError {
    OutOfBounds,
}

/// An owned sequence of bytes. Accessors never change its length; a failed
/// write leaves every byte as it was.
pub struct Buffer(Vec<u8>);

impl View for Buffer {
    type V = Seq<u8>;

    closed spec fn view(&self) -> Seq<u8> {
        self.0@
    }
}

impl Buffer {
    pub fn new(v: Vec<u8>) -> (r: Buffer)
        ensures
            r@ == v@,
    {
        Buffer(v)
    }

    pub fn as_slice(&self) -> (r: &[u8])
        ensures
            r@ == self@,
    {
        self.0.as_slice()
    }

    /// A buffer holding a copy of `payload`.
    pub fn from_string(payload: &[u8]) -> (r: Buffer)
        ensures
            r@ == payload@,
    {
        Buffer(copy_of(payload, 0, payload.len()))
    }

    /// A buffer of `count` bytes, each equal to `value`.
    pub fn filled(value: u8, count: usize) -> (r: Buffer)
        ensures
            r@ == Seq::new(count as nat, |_i: int| value),
    {
        let v = vec![value; count];
        assert(v@ =~= Seq::new(count as nat, |_i: int| value));
        Buffer(v)
    }

    pub fn len(&self) -> (r: usize)
        ensures
            r == self@.len(),
    {
        self.0.len()
    }

    /// A copy of the whole byte sequence.
    pub fn to_string(&self) -> (r: Vec<u8>)
        ensures
            r@ == self@,
    {
        copy_of(self.0.as_slice(), 0, self.0.len())
    }

    /// A new buffer holding the bytes of `self` followed by those of `other`.
    pub fn concat(&self, other: &Buffer) -> (r: Buffer)
        requires
            self@.len() + other@.len() <= usize::MAX,
        ensures
            r@ == self@ + other@,
    {
        let mut out = copy_of(self.0.as_slice(), 0, self.0.len());
        let mut i: usize = 0;
        while i < other.0.len()
            invariant
                i <= other@.len(),
                out@ == self@ + other@.subrange(0, i as int),
            decreases other@.len() - i,
        {
            out.push(other.0[i]);
            i = i + 1;
            assert(out@ =~= self@ + other@.subrange(0, i as int));
        }
        assert(other@.subrange(0, i as int) =~= other@);
        Buffer(out)
    }

    /// Whether both buffers hold the same bytes in the same order.
    pub fn equals(&self, other: &Buffer) -> (r: bool)
        ensures
            r == (self@ == other@),
    {
        if self.0.len() != other.0.len() {
            return false;
        }
        let mut i: usize = 0;
        while i < self.0.len()
            invariant
                self@.len() == other@.len(),
                i <= self@.len(),
                forall|j: int| 0 <= j < i ==> self@[j] == other@[j],
            decreases self@.len() - i,
        {
            if self.0[i] != other.0[i] {
                return false;
            }
            i = i + 1;
        }
        assert(self@ =~= other@);
        true
    }

    /// A copy of the `length` bytes starting at `offset`.
    pub fn get(&self, offset: usize, length: usize) -> (r: Result<Vec<u8>, BufferError>)
        ensures
            fits(offset as int, length as int, self@.len() as int) <==> r is Ok,
            r matches Ok(v) ==> v@ == self@.subrange(offset as int, offset + length),
            r matches Err(e) ==> e == BufferError::OutOfBounds,
            length == 0 && offset <= self@.len() ==> (r matches Ok(v) && v@.len() == 0),
    {
        if !self.range_fits(offset, length) {
            return Err(BufferError::OutOfBounds);
        }
        Ok(copy_of(self.0.as_slice(), offset, offset + length))
    }

    /// The `length` bytes starting at `offset`, as a string payload (raw bytes,
    /// no encoding is checked).
    pub fn get_string(&self, offset: usize, length: usize) -> (r: Result<Vec<u8>, BufferError>)
        ensures
            fits(offset as int, length as int, self@.len() as int) <==> r is Ok,
            r matches Ok(v) ==> v@ == self@.subrange(offset as int, offset + length),
            r matches Err(e) ==> e == BufferError::OutOfBounds,
    {
        self.get(offset, length)
    }

    /// Overwrites the bytes from `offset` on with `payload`; the buffer is left
    /// unchanged when they do not fit.
    pub fn set_string(&mut self, offset: usize, payload: &[u8]) -> (r: Result<(), BufferError>)
        ensures
            fits(offset as int, payload@.len() as int, old(self)@.len() as int) ==> r is Ok
                && final(self)@ == splice(old(self)@, offset as int, payload@),
            !fits(offset as int, payload@.len() as int, old(self)@.len() as int) ==> r == Err::<
                (),
                BufferError,
            >(BufferError::OutOfBounds) && final(self)@ == old(self)@,
    {
        if !self.range_fits(offset, payload.len()) {
            return Err(BufferError::OutOfBounds);
        }
        self.write_range(offset, payload);
        Ok(())
    }

    /// Overwrites the bytes from `offset` on with those of `source`; the buffer
    /// is left unchanged when they do not fit.
    pub fn set(&mut self, offset: usize, source: &Buffer) -> (r: Result<(), BufferError>)
        ensures
            fits(offset as int, source@.len() as int, old(self)@.len() as int) ==> r is Ok
                && final(self)@ == splice(old(self)@, offset as int, source@),
            !fits(offset as int, source@.len() as int, old(self)@.len() as int) ==> r == Err::<
                (),
                BufferError,
            >(BufferError::OutOfBounds) && final(self)@ == old(self)@,
    {
        self.set_string(offset, source.as_slice())
    }

    /// The unsigned byte at `offset`.
    pub fn get_u8(&self, offset: usize) -> (r: Result<u8, BufferError>)
        ensures
            fits(offset as int, 1, self@.len() as int) <==> r is Ok,
            r matches Ok(v) ==> v as nat == read_le(self@, offset as int, 1),
            r matches Err(e) ==> e == BufferError::OutOfBounds,
    {
        let b = self.bytes_at(offset, 1)?;
        proof {
            lemma_single_byte(b@, 0);
        }
        Ok(b[0])
    }

    /// Stores `v` in the byte at `offset`; the buffer is left unchanged when
    /// `offset` is out of range.
    pub fn set_u8(&mut self, offset: usize, v: u8) -> (r: Result<(), BufferError>)
        ensures
            fits(offset as int, 1, old(self)@.len() as int) ==> r is Ok && final(self)@
                == write_le(old(self)@, offset as int, 1, v as nat),
            !fits(offset as int, 1, old(self)@.len() as int) ==> r == Err::<(), BufferError>(
                BufferError::OutOfBounds,
            ) && final(self)@ == old(self)@,
    {
        let b = [v];
        proof {
            lemma_single_byte(b@, v);
        }
        self.set_string(offset, b.as_slice())
    }

    /// The byte at `offset`, read as a two's-complement signed value.
    pub fn get_i8(&self, offset: usize) -> (r: Result<i8, BufferError>)
        ensures
            fits(offset as int, 1, self@.len() as int) <==> r is Ok,
            r matches Ok(v) ==> v as int == to_signed(read_le(self@, offset as int, 1), 1),
            r matches Err(e) ==> e == BufferError::OutOfBounds,
    {
        let u = self.get_u8(offset)?;
        proof {
            lemma_reinterpret_8(u, 0);
        }
        Ok(#[verifier::truncate] (u as i8))
    }

    /// Stores the two's-complement byte of `v` at `offset`; the buffer is left
    /// unchanged when `offset` is out of range.
    pub fn set_i8(&mut self, offset: usize, v: i8) -> (r: Result<(), BufferError>)
        ensures
            fits(offset as int, 1, old(self)@.len() as int) ==> r is Ok && final(self)@
                == write_le(old(self)@, offset as int, 1, to_unsigned(v as int, 1)),
            !fits(offset as int, 1, old(self)@.len() as int) ==> r == Err::<(), BufferError>(
                BufferError::OutOfBounds,
            ) && final(self)@ == old(self)@,
    {
        proof {
            lemma_reinterpret_8(0, v);
        }
        self.set_u8(offset, #[verifier::truncate] (v as u8))
    }

    /// The unsigned 16-bit integer stored little-endian at `offset`.
    pub fn get_u16_le(&self, offset: usize) -> (r: Result<u16, BufferError>)
        ensures
            fits(offset as int, 2, self@.len() as int) <==> r is Ok,
            r matches Ok(v) ==> v as nat == read_le(self@, offset as int, 2),
            r matches Err(e) ==> e == BufferError::OutOfBounds,
    {
        let b = self.bytes_at(offset, 2)?;
        Ok(read_u16(b))
    }

    /// Stores `v` little-endian in the two bytes at `offset`; the buffer is left
    /// unchanged when they do not fit.
    pub fn set_u16_le(&mut self, offset: usize, v: u16) -> (r: Result<(), BufferError>)
        ensures
            fits(offset as int, 2, old(self)@.len() as int) ==> r is Ok && final(self)@
                == write_le(old(self)@, offset as int, 2, v as nat),
            !fits(offset as int, 2, old(self)@.len() as int) ==> r == Err::<(), BufferError>(
                BufferError::OutOfBounds,
            ) && final(self)@ == old(self)@,
    {
        let b = write_u16(v);
        proof {
            lemma_le_bytes_len(v as nat, 2);
        }
        self.set_string(offset, b.as_slice())
    }

    /// The signed 16-bit integer stored little-endian (two's complement) at `offset`.
    pub fn get_i16_le(&self, offset: usize) -> (r: Result<i16, BufferError>)
        ensures
            fits(offset as int, 2, self@.len() as int) <==> r is Ok,
            r matches Ok(v) ==> v as int == to_signed(read_le(self@, offset as int, 2), 2),
            r matches Err(e) ==> e == BufferError::OutOfBounds,
    {
        let u = self.get_u16_le(offset)?;
        proof {
            lemma_reinterpret_16(u, 0);
        }
        Ok(#[verifier::truncate] (u as i16))
    }

    /// Stores `v` little-endian (two's complement) in the two bytes at `offset`;
    /// the buffer is left unchanged when they do not fit.
    pub fn set_i16_le(&mut self, offset: usize, v: i16) -> (r: Result<(), BufferError>)
        ensures
            fits(offset as int, 2, old(self)@.len() as int) ==> r is Ok && final(self)@
                == write_le(old(self)@, offset as int, 2, to_unsigned(v as int, 2)),
            !fits(offset as int, 2, old(self)@.len() as int) ==> r == Err::<(), BufferError>(
                BufferError::OutOfBounds,
            ) && final(self)@ == old(self)@,
    {
        proof {
            lemma_reinterpret_16(0, v);
        }
        self.set_u16_le(offset, #[verifier::truncate] (v as u16))
    }

    /// The unsigned 32-bit integer stored little-endian at `offset`.
    pub fn get_u32_le(&self, offset: usize) -> (r: Result<u32, BufferError>)
        ensures
            fits(offset as int, 4, self@.len() as int) <==> r is Ok,
            r matches Ok(v) ==> v as nat == read_le(self@, offset as int, 4),
            r matches Err(e) ==> e == BufferError::OutOfBounds,
    {
        let b = self.bytes_at(offset, 4)?;
        Ok(read_u32(b))
    }

    /// Stores `v` little-endian in the four bytes at `offset`; the buffer is left
    /// unchanged when they do not fit.
    pub fn set_u32_le(&mut self, offset: usize, v: u32) -> (r: Result<(), BufferError>)
        ensures
            fits(offset as int, 4, old(self)@.len() as int) ==> r is Ok && final(self)@
                == write_le(old(self)@, offset as int, 4, v as nat),
            !fits(offset as int, 4, old(self)@.len() as int) ==> r == Err::<(), BufferError>(
                BufferError::OutOfBounds,
            ) && final(self)@ == old(self)@,
    {
        let b = write_u32(v);
        proof {
            lemma_le_bytes_len(v as nat, 4);
        }
        self.set_string(offset, b.as_slice())
    }

    /// The signed 32-bit integer stored little-endian (two's complement) at `offset`.
    pub fn get_i32_le(&self, offset: usize) -> (r: Result<i32, BufferError>)
        ensures
            fits(offset as int, 4, self@.len() as int) <==> r is Ok,
            r matches Ok(v) ==> v as int == to_signed(read_le(self@, offset as int, 4), 4),
            r matches Err(e) ==> e == BufferError::OutOfBounds,
    {
        let u = self.get_u32_le(offset)?;
        proof {
            lemma_reinterpret_32(u, 0);
        }
        Ok(#[verifier::truncate] (u as i32))
    }

    /// Stores `v` little-endian (two's complement) in the four bytes at `offset`;
    /// the buffer is left unchanged when they do not fit.
    pub fn set_i32_le(&mut self, offset: usize, v: i32) -> (r: Result<(), BufferError>)
        ensures
            fits(offset as int, 4, old(self)@.len() as int) ==> r is Ok && final(self)@
                == write_le(old(self)@, offset as int, 4, to_unsigned(v as int, 4)),
            !fits(offset as int, 4, old(self)@.len() as int) ==> r == Err::<(), BufferError>(
                BufferError::OutOfBounds,
            ) && final(self)@ == old(self)@,
    {
        proof {
            lemma_reinterpret_32(0, v);
        }
        self.set_u32_le(offset, #[verifier::truncate] (v as u32))
    }

    /// The `width` bytes at `offset`, borrowed.
    fn bytes_at(&self, offset: usize, width: usize) -> (r: Result<&[u8], BufferError>)
        ensures
            fits(offset as int, width as int, self@.len() as int) <==> r is Ok,
            r matches Ok(b) ==> b@ == self@.subrange(offset as int, offset + width),
            r matches Err(e) ==> e == BufferError::OutOfBounds,
    {
        if !self.range_fits(offset, width) {
            return Err(BufferError::OutOfBounds);
        }
        Ok(vstd::slice::slice_subrange(self.0.as_slice(), offset, offset + width))
    }

    /// Whether `[offset, offset + n)` lies within the buffer, without overflow.
    fn range_fits(&self, offset: usize, n: usize) -> (r: bool)
        ensures
            r == fits(offset as int, n as int, self@.len() as int),
            self@.len() <= usize::MAX,
    {
        n <= self.0.len() && offset <= self.0.len() - n
    }

    /// Overwrites the bytes from `offset` on with `src`.
    fn write_range(&mut self, offset: usize, src: &[u8])
        requires
            fits(offset as int, src@.len() as int, old(self)@.len() as int),
        ensures
            final(self)@ == splice(old(self)@, offset as int, src@),
    {
        let ghost s0 = self@;
        let len = self.0.len();
        let mut k: usize = 0;
        while k < src.len()
            invariant
                fits(offset as int, src@.len() as int, s0.len() as int),
                k <= src@.len(),
                s0.len() == len,
                self@.len() == s0.len(),
                forall|j: int|
                    0 <= j < s0.len() && !(offset <= j < offset + k) ==> #[trigger] self@[j]
                        == s0[j],
                forall|j: int| offset <= j < offset + k ==> #[trigger] self@[j] == src@[j - offset],
            decreases src@.len() - k,
        {
            self.0.set(offset + k, src[k]);
            k = k + 1;
        }
        assert(self@ =~= splice(s0, offset as int, src@));
    }
}

/// A new vector holding `s[start..end)`.
fn copy_of(s: &[u8], start: usize, end: usize) -> (r: Vec<u8>)
    requires
        start <= end <= s@.len(),
    ensures
        r@ == s@.subrange(start as int, end as int),
{
    let mut out: Vec<u8> = Vec::new();
    let mut i: usize = start;
    while i < end
        invariant
            start <= i <= end,
            end <= s@.len(),
            out@ == s@.subrange(start as int, i as int),
        decreases end - i,
    {
        out.push(s[i]);
        i = i + 1;
        assert(out@ =~= s@.subrange(start as int, i as int));
    }
    out
}

impl Clone for Buffer {
    /// An independent copy: later writes to either buffer leave the other unchanged.
    fn clone(&self) -> (r: Buffer)
        ensures
            r@ == self@,
    {
        Buffer(copy_of(self.0.as_slice(), 0, self.0.len()))
    }
}

impl PartialEq for Buffer {
    fn eq(&self, other: &Buffer) -> (r: bool) {
        self.equals(other)
    }
}

impl vstd::std_specs::cmp::PartialEqSpecImpl for Buffer {
    open spec fn obeys_eq_spec() -> bool {
        true
    }

    open spec fn eq_spec(&self, other: &Buffer) -> bool {
        self@ == other@
    }
}

} // verus!

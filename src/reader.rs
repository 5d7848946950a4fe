use vstd::prelude::*;
use vstd::utf8::{decode_utf8, valid_utf8};
use crate::error::SarcError;

verus! {

/// The big-endian `u16` stored at `d[p..p + 2]`.
pub open spec fn be16(d: Seq<u8>, p: int) -> u16 {
    (d[p] as int * 0x100 + d[p + 1] as int) as u16
}

/// The big-endian `u32` stored at `d[p..p + 4]`.
pub open spec fn be32(d: Seq<u8>, p: int) -> u32 {
    (d[p] as int * 0x100_0000 + d[p + 1] as int * 0x1_0000 + d[p + 2] as int * 0x100
        + d[p + 3] as int) as u32
}

/// The first position at or after `q` that holds a NUL byte, if any.
pub open spec fn nul_at_or_after(d: Seq<u8>, q: int) -> Option<int>
    decreases d.len() - q,
{
    if q < 0 || q >= d.len() {
        None
    } else if d[q] == 0 {
        Some(q)
    } else {
        nul_at_or_after(d, q + 1)
    }
}

/// The next multiple of four at or after `q`.
pub open spec fn aligned4(q: int) -> int {
    if q % 4 == 0 { q } else { q + (4 - q % 4) }
}

/// Relies on `String::from_utf8`: it succeeds exactly on valid UTF-8 and
/// then holds the text the bytes encode.
#[verifier::external_body]
fn utf8_to_string(b: Vec<u8>) -> (r: Option<String>)
    ensures
        match r {
            Some(s) => valid_utf8(b@) && s@ == decode_utf8(b@),
            None => !valid_utf8(b@),
        },
{
    String::from_utf8(b).ok()
}

/// What reading a NUL-terminated UTF-8 string at `q` gives: the text and the
/// position just past the terminator.
pub open spec fn text_at(d: Seq<u8>, q: int) -> Result<(Seq<char>, int), SarcError> {
    match nul_at_or_after(d, q) {
        None => Err(SarcError::TruncatedInput),
        Some(e) => if valid_utf8(d.subrange(q, e)) {
            Ok((decode_utf8(d.subrange(q, e)), e + 1))
        } else {
            Err(SarcError::InvalidEncoding)
        },
    }
}

/// A byte source with a cursor, read from front to back. The cursor may
/// stand past the end of the data; every read from there fails.
pub struct ByteReader {
    pub data: Vec<u8>,
    pub pos: usize,
}

impl ByteReader {
    /// The data is no longer than a `Vec` can be, so a cursor a few bytes
    /// past its end still fits a `usize`.
    pub open spec fn wf(&self) -> bool {
        self.data.len() <= isize::MAX
    }

    /// A reader at the start of `data`.
    pub fn new(data: Vec<u8>) -> (r: ByteReader)
        requires
            data.len() <= isize::MAX,
        ensures
            r.wf(),
            r.data@ == data@,
            r.pos == 0,
    {
        ByteReader { data, pos: 0 }
    }

    /// The cursor's position.
    pub fn position(&self) -> (r: usize)
        ensures
            r == self.pos,
    {
        self.pos
    }

    /// Whether `n` more bytes are left to read.
    pub fn has(&self, n: usize) -> (r: bool)
        requires
            self.wf(),
        ensures
            r == (self.pos + n <= self.data.len()),
    {
        self.pos <= self.data.len() && n <= self.data.len() - self.pos
    }

    /// Reads one byte.
    pub fn read_u8(&mut self) -> (r: Result<u8, SarcError>)
        requires
            old(self).wf(),
        ensures
            final(self).wf(),
            final(self).data@ == old(self).data@,
            old(self).pos + 1 <= old(self).data.len() ==> r == Ok::<u8, SarcError>(
                old(self).data@[old(self).pos as int],
            ) && final(self).pos == old(self).pos + 1,
            old(self).pos + 1 > old(self).data.len() ==> r == Err::<u8, SarcError>(
                SarcError::TruncatedInput,
            ) && final(self).pos == old(self).pos,
    {
        if !self.has(1) {
            return Err(SarcError::TruncatedInput);
        }
        let b = self.data[self.pos];
        self.pos = self.pos + 1;
        Ok(b)
    }

    /// Reads a big-endian `u16`.
    pub fn read_be_u16(&mut self) -> (r: Result<u16, SarcError>)
        requires
            old(self).wf(),
        ensures
            final(self).wf(),
            final(self).data@ == old(self).data@,
            old(self).pos + 2 <= old(self).data.len() ==> r == Ok::<u16, SarcError>(
                be16(old(self).data@, old(self).pos as int),
            ) && final(self).pos == old(self).pos + 2,
            old(self).pos + 2 > old(self).data.len() ==> r == Err::<u16, SarcError>(
                SarcError::TruncatedInput,
            ) && final(self).pos == old(self).pos,
    {
        if !self.has(2) {
            return Err(SarcError::TruncatedInput);
        }
        let hi = self.data[self.pos] as u16;
        let lo = self.data[self.pos + 1] as u16;
        self.pos = self.pos + 2;
        Ok(hi * 0x100 + lo)
    }

    /// Reads a big-endian `u32`.
    pub fn read_be_u32(&mut self) -> (r: Result<u32, SarcError>)
        requires
            old(self).wf(),
        ensures
            final(self).wf(),
            final(self).data@ == old(self).data@,
            old(self).pos + 4 <= old(self).data.len() ==> r == Ok::<u32, SarcError>(
                be32(old(self).data@, old(self).pos as int),
            ) && final(self).pos == old(self).pos + 4,
            old(self).pos + 4 > old(self).data.len() ==> r == Err::<u32, SarcError>(
                SarcError::TruncatedInput,
            ) && final(self).pos == old(self).pos,
    {
        if !self.has(4) {
            return Err(SarcError::TruncatedInput);
        }
        let p = self.pos;
        let b0 = self.data[p] as u32;
        let b1 = self.data[p + 1] as u32;
        let b2 = self.data[p + 2] as u32;
        let b3 = self.data[p + 3] as u32;
        self.pos = p + 4;
        Ok(b0 * 0x100_0000 + b1 * 0x1_0000 + b2 * 0x100 + b3)
    }

    /// Moves the cursor `n` bytes on without reading them, past the end of
    /// the data if that is where they lead.
    pub fn skip(&mut self, n: usize)
        requires
            old(self).wf(),
            old(self).pos + n <= usize::MAX,
        ensures
            final(self).wf(),
            final(self).data@ == old(self).data@,
            final(self).pos == old(self).pos + n,
    {
        self.pos = self.pos + n;
    }
}

/// Moves the cursor on to the next multiple of four, counted from the start
/// of the data; an aligned cursor stays where it is.
pub fn smart_align_4(reader: &mut ByteReader)
    requires
        old(reader).wf(),
        old(reader).pos + 3 <= usize::MAX,
    ensures
        final(reader).wf(),
        final(reader).data@ == old(reader).data@,
        final(reader).pos == aligned4(old(reader).pos as int),
{
    let rem = reader.pos % 4;
    if rem != 0 {
        reader.skip(4 - rem);
    }
}

/// Reads a NUL-terminated UTF-8 string and moves past its terminator.
pub fn read_text_entry(reader: &mut ByteReader) -> (r: Result<String, SarcError>)
    requires
        old(reader).wf(),
    ensures
        final(reader).wf(),
        final(reader).data@ == old(reader).data@,
        match text_at(old(reader).data@, old(reader).pos as int) {
            Ok((s, q)) => r matches Ok(t) && t@ == s && final(reader).pos == q,
            Err(e) => r == Err::<String, SarcError>(e),
        },
        r is Ok ==> final(reader).pos <= final(reader).data.len(),
{
    let start = reader.pos;
    let len = reader.data.len();
    if start >= len {
        return Err(SarcError::TruncatedInput);
    }
    let mut bytes: Vec<u8> = Vec::new();
    let mut j: usize = start;
    while j < len && reader.data[j] != 0
        invariant
            len == reader.data.len(),
            start == reader.pos,
            start <= j <= len,
            bytes@ == reader.data@.subrange(start as int, j as int),
            nul_at_or_after(reader.data@, start as int) == nul_at_or_after(reader.data@, j as int),
        decreases len - j,
    {
        bytes.push(reader.data[j]);
        j = j + 1;
    }
    if j >= len {
        return Err(SarcError::TruncatedInput);
    }
    match utf8_to_string(bytes) {
        None => Err(SarcError::InvalidEncoding),
        Some(s) => {
            reader.pos = j + 1;
            Ok(s)
        },
    }
}

} // verus!

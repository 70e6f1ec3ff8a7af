//! Deserialization of the wire protocol: a cursor over a packet body that
//! reads the primitive encodings of the format.
//!
//! Scalars are little-endian and inline. Variable-length fields occupy a
//! fixed-size header at their field position whose 16-bit offsets are
//! absolute, measured from the start of the framed packet: the frame header
//! is four bytes, so an offset is mapped into the body by subtracting four.
//! Offset value `0` denotes an absent payload and is never dereferenced.
use vstd::prelude::*;

use crate::bytes::{le16, le32, le64};
use crate::error::Error;

verus! {

/// Largest frame the protocol allows; bodies are always shorter.
pub const MAX_FRAME_LEN: usize = 0x8000;

/// A Deserializer that reads bytes from a vector.
#[derive(Clone, Debug)]
pub struct Deserializer {
    data: Vec<u8>,
    pos: usize,
}

/// The body position an absolute wire offset denotes; `0` stands for an
/// absent payload and maps to `0`.
pub open spec fn spec_abs_offset(offset: int) -> int {
    if offset == 0 {
        0
    } else {
        offset - 4
    }
}

/// The first pair position at or after `i` where two zero bytes terminate a
/// string payload, if any pair before the end of the body does.
pub open spec fn find_terminator(s: Seq<u8>, i: int) -> Option<int>
    decreases s.len() - i,
{
    if i < 0 || i + 1 >= s.len() {
        None
    } else if s[i] == 0 && s[i + 1] == 0 {
        Some(i)
    } else {
        find_terminator(s, i + 2)
    }
}

/// The `n` UCS-2 code units held little-endian at body position `abs`.
pub open spec fn units_at(s: Seq<u8>, abs: int, n: int) -> Seq<u16> {
    Seq::new(n as nat, |j: int| le16(s, abs + 2 * j))
}

/// What reading a one-byte boolean at `pos` yields: `0` and `1` are the only
/// encodings.
pub open spec fn spec_read_bool(s: Seq<u8>, pos: int) -> Result<(bool, int), Error> {
    if pos + 1 > s.len() {
        Err(Error::OffsetOutsideData(pos as usize, (pos + 1) as usize))
    } else if s[pos] == 1 {
        Ok((true, pos + 1))
    } else if s[pos] == 0 {
        Ok((false, pos + 1))
    } else {
        Err(Error::InvalidBoolEncoding(s[pos], pos as usize))
    }
}

/// What reading a string field at `pos` yields: the header's offset is
/// followed, and the payload is scanned in two-byte steps up to its zero
/// terminator.
pub open spec fn spec_read_str(s: Seq<u8>, pos: int) -> Result<(Seq<u16>, int), Error> {
    if pos + 2 > s.len() {
        Err(Error::OffsetOutsideData(pos as usize, (pos + 2) as usize))
    } else {
        let raw = le16(s, pos) as int;
        if raw < 4 {
            Err(Error::OffsetOutsideData((pos + 2) as usize, raw as usize))
        } else if raw - 4 >= s.len() {
            Err(Error::OffsetOutsideData((pos + 2) as usize, (raw - 4) as usize))
        } else {
            match find_terminator(s, raw - 4) {
                Some(t) => Ok((units_at(s, raw - 4, (t - (raw - 4)) / 2), pos + 2)),
                None => Err(Error::StringNotNullTerminated((pos + 2) as usize)),
            }
        }
    }
}

/// What reading a byte-buffer field at `pos` yields: a header of offset and
/// length, and the raw payload bytes. An absent payload (offset `0`) is
/// accepted only with length `0`.
pub open spec fn spec_read_bytes(s: Seq<u8>, pos: int) -> Result<(Seq<u8>, int), Error> {
    if pos + 2 > s.len() {
        Err(Error::OffsetOutsideData(pos as usize, (pos + 2) as usize))
    } else if pos + 4 > s.len() {
        Err(Error::OffsetOutsideData((pos + 2) as usize, (pos + 4) as usize))
    } else {
        let raw = le16(s, pos) as int;
        let l = le16(s, pos + 2) as int;
        if raw == 0 {
            if l == 0 {
                Ok((Seq::empty(), pos + 4))
            } else {
                Err(Error::OffsetOutsideData((pos + 4) as usize, 0))
            }
        } else if raw < 4 {
            Err(Error::OffsetOutsideData((pos + 4) as usize, raw as usize))
        } else if raw - 4 + l > s.len() {
            Err(Error::BytesTooBig((pos + 4) as usize))
        } else {
            Ok((s.subrange(raw - 4, raw - 4 + l), pos + 4))
        }
    }
}

/// What stepping to the sequence element at absolute offset `cur_raw`
/// yields: the element's stored offset must equal the expected one, and the
/// element body begins after its stored next-offset. `pos` is only recorded
/// in the error payloads.
pub open spec fn spec_seq_advance(s: Seq<u8>, pos: int, cur_raw: int) -> Result<
    (u16, int),
    Error,
> {
    if cur_raw < 4 {
        Err(Error::OffsetOutsideData(pos as usize, cur_raw as usize))
    } else if cur_raw - 4 >= s.len() {
        Err(Error::OffsetOutsideData(pos as usize, (cur_raw - 4) as usize))
    } else if cur_raw - 4 + 2 > s.len() {
        Err(Error::OffsetOutsideData((cur_raw - 4) as usize, (cur_raw - 2) as usize))
    } else {
        let abs = cur_raw - 4;
        let self_raw = le16(s, abs) as int;
        if self_raw < 4 {
            Err(Error::OffsetOutsideData((abs + 2) as usize, self_raw as usize))
        } else if self_raw - 4 != abs {
            Err(Error::InvalidSeqEntry((self_raw - 4) as usize))
        } else if abs + 4 > s.len() {
            Err(Error::OffsetOutsideData((abs + 2) as usize, (abs + 4) as usize))
        } else {
            Ok((le16(s, abs + 2), abs + 4))
        }
    }
}

impl Deserializer {
    /// The body this cursor reads.
    pub closed spec fn spec_data(&self) -> Seq<u8> {
        self.data@
    }

    /// The cursor's position in the body.
    pub closed spec fn spec_pos(&self) -> int {
        self.pos as int
    }

    /// The cursor stays within the body, and the body within the frame cap.
    pub open spec fn wf(&self) -> bool {
        self.spec_pos() <= self.spec_data().len() && self.spec_data().len() <= MAX_FRAME_LEN
    }

    /// Creates a new Deserializer with a given `Vec<u8>`.
    pub fn from_vec(r: Vec<u8>) -> (d: Self)
        requires
            r@.len() <= MAX_FRAME_LEN,
        ensures
            d.wf(),
            d.spec_data() == r@,
            d.spec_pos() == 0,
    {
        Deserializer { data: r, pos: 0 }
    }

    /// Maps an absolute wire offset into the body, undoing the four bytes of
    /// the frame header; `0` (absent) is left as is.
    pub fn abs_offset(&self, offset: usize) -> (r: usize)
        requires
            offset == 0 || offset >= 4,
        ensures
            r == spec_abs_offset(offset as int),
    {
        if offset == 0 {
            offset
        } else {
            offset - 4
        }
    }

    /// Moves the cursor; used to restore it after an out-of-line excursion.
    pub fn seek(&mut self, p: usize)
        requires
            old(self).wf(),
            p <= old(self).spec_data().len(),
        ensures
            final(self).wf(),
            final(self).spec_data() == old(self).spec_data(),
            final(self).spec_pos() == p,
    {
        self.pos = p;
    }

    pub fn read_u8(&mut self) -> (r: Result<u8, Error>)
        requires
            old(self).wf(),
        ensures
            final(self).wf(),
            final(self).spec_data() == old(self).spec_data(),
            match r {
                Ok(v) => old(self).spec_pos() + 1 <= old(self).spec_data().len() && final(self).spec_pos() == old(self).spec_pos() + 1 && v == old(self).spec_data()[old(self).spec_pos()],
                Err(e) => old(self).spec_pos() + 1 > old(self).spec_data().len() && e == Error::OffsetOutsideData(old(self).spec_pos() as usize, (old(self).spec_pos() + 1) as usize) && *final(self) == *old(self),
            },
    {
        if self.data.len() - self.pos < 1 {
            return Err(Error::OffsetOutsideData(self.pos, self.pos + 1));
        }
        let b = self.data[self.pos];
        self.pos = self.pos + 1;
        Ok(b)
    }

    pub fn read_i8(&mut self) -> (r: Result<i8, Error>)
        requires
            old(self).wf(),
        ensures
            final(self).wf(),
            final(self).spec_data() == old(self).spec_data(),
            match r {
                Ok(v) => old(self).spec_pos() + 1 <= old(self).spec_data().len() && final(self).spec_pos() == old(self).spec_pos() + 1 && v == old(self).spec_data()[old(self).spec_pos()] as i8,
                Err(e) => old(self).spec_pos() + 1 > old(self).spec_data().len() && e == Error::OffsetOutsideData(old(self).spec_pos() as usize, (old(self).spec_pos() + 1) as usize) && *final(self) == *old(self),
            },
    {
        match self.read_u8() {
            Ok(v) => Ok(v as i8),
            Err(e) => Err(e),
        }
    }

    pub fn read_u16(&mut self) -> (r: Result<u16, Error>)
        requires
            old(self).wf(),
        ensures
            final(self).wf(),
            final(self).spec_data() == old(self).spec_data(),
            match r {
                Ok(v) => old(self).spec_pos() + 2 <= old(self).spec_data().len() && final(self).spec_pos() == old(self).spec_pos() + 2 && v == le16(old(self).spec_data(), old(self).spec_pos()),
                Err(e) => old(self).spec_pos() + 2 > old(self).spec_data().len() && e == Error::OffsetOutsideData(old(self).spec_pos() as usize, (old(self).spec_pos() + 2) as usize) && *final(self) == *old(self),
            },
    {
        if self.data.len() - self.pos < 2 {
            return Err(Error::OffsetOutsideData(self.pos, self.pos + 2));
        }
        let b0 = self.data[self.pos];
        let b1 = self.data[self.pos + 1];
        self.pos = self.pos + 2;
        Ok((b0 as u16) | ((b1 as u16) << 8))
    }

    pub fn read_i16(&mut self) -> (r: Result<i16, Error>)
        requires
            old(self).wf(),
        ensures
            final(self).wf(),
            final(self).spec_data() == old(self).spec_data(),
            match r {
                Ok(v) => old(self).spec_pos() + 2 <= old(self).spec_data().len() && final(self).spec_pos() == old(self).spec_pos() + 2 && v == le16(old(self).spec_data(), old(self).spec_pos()) as i16,
                Err(e) => old(self).spec_pos() + 2 > old(self).spec_data().len() && e == Error::OffsetOutsideData(old(self).spec_pos() as usize, (old(self).spec_pos() + 2) as usize) && *final(self) == *old(self),
            },
    {
        match self.read_u16() {
            Ok(v) => Ok(v as i16),
            Err(e) => Err(e),
        }
    }

    pub fn read_u32(&mut self) -> (r: Result<u32, Error>)
        requires
            old(self).wf(),
        ensures
            final(self).wf(),
            final(self).spec_data() == old(self).spec_data(),
            match r {
                Ok(v) => old(self).spec_pos() + 4 <= old(self).spec_data().len() && final(self).spec_pos() == old(self).spec_pos() + 4 && v == le32(old(self).spec_data(), old(self).spec_pos()),
                Err(e) => old(self).spec_pos() + 4 > old(self).spec_data().len() && e == Error::OffsetOutsideData(old(self).spec_pos() as usize, (old(self).spec_pos() + 4) as usize) && *final(self) == *old(self),
            },
    {
        if self.data.len() - self.pos < 4 {
            return Err(Error::OffsetOutsideData(self.pos, self.pos + 4));
        }
        let b0 = self.data[self.pos];
        let b1 = self.data[self.pos + 1];
        let b2 = self.data[self.pos + 2];
        let b3 = self.data[self.pos + 3];
        self.pos = self.pos + 4;
        Ok((b0 as u32) | ((b1 as u32) << 8) | ((b2 as u32) << 16) | ((b3 as u32) << 24))
    }

    pub fn read_i32(&mut self) -> (r: Result<i32, Error>)
        requires
            old(self).wf(),
        ensures
            final(self).wf(),
            final(self).spec_data() == old(self).spec_data(),
            match r {
                Ok(v) => old(self).spec_pos() + 4 <= old(self).spec_data().len() && final(self).spec_pos() == old(self).spec_pos() + 4 && v == le32(old(self).spec_data(), old(self).spec_pos()) as i32,
                Err(e) => old(self).spec_pos() + 4 > old(self).spec_data().len() && e == Error::OffsetOutsideData(old(self).spec_pos() as usize, (old(self).spec_pos() + 4) as usize) && *final(self) == *old(self),
            },
    {
        match self.read_u32() {
            Ok(v) => Ok(v as i32),
            Err(e) => Err(e),
        }
    }

    /// Reads the raw bits of a 32-bit IEEE-754 float; callers reinterpret
    /// them outside the verified core.
    pub fn read_f32_bits(&mut self) -> (r: Result<u32, Error>)
        requires
            old(self).wf(),
        ensures
            final(self).wf(),
            final(self).spec_data() == old(self).spec_data(),
            match r {
                Ok(v) => old(self).spec_pos() + 4 <= old(self).spec_data().len() && final(self).spec_pos() == old(self).spec_pos() + 4 && v == le32(old(self).spec_data(), old(self).spec_pos()),
                Err(e) => old(self).spec_pos() + 4 > old(self).spec_data().len() && e == Error::OffsetOutsideData(old(self).spec_pos() as usize, (old(self).spec_pos() + 4) as usize) && *final(self) == *old(self),
            },
    {
        self.read_u32()
    }

    pub fn read_u64(&mut self) -> (r: Result<u64, Error>)
        requires
            old(self).wf(),
        ensures
            final(self).wf(),
            final(self).spec_data() == old(self).spec_data(),
            match r {
                Ok(v) => old(self).spec_pos() + 8 <= old(self).spec_data().len() && final(self).spec_pos() == old(self).spec_pos() + 8 && v == le64(old(self).spec_data(), old(self).spec_pos()),
                Err(e) => old(self).spec_pos() + 8 > old(self).spec_data().len() && e == Error::OffsetOutsideData(old(self).spec_pos() as usize, (old(self).spec_pos() + 8) as usize) && *final(self) == *old(self),
            },
    {
        if self.data.len() - self.pos < 8 {
            return Err(Error::OffsetOutsideData(self.pos, self.pos + 8));
        }
        let b0 = self.data[self.pos];
        let b1 = self.data[self.pos + 1];
        let b2 = self.data[self.pos + 2];
        let b3 = self.data[self.pos + 3];
        let b4 = self.data[self.pos + 4];
        let b5 = self.data[self.pos + 5];
        let b6 = self.data[self.pos + 6];
        let b7 = self.data[self.pos + 7];
        self.pos = self.pos + 8;
        Ok((b0 as u64) | ((b1 as u64) << 8) | ((b2 as u64) << 16) | ((b3 as u64) << 24) | ((b4 as u64) << 32) | ((b5 as u64) << 40) | ((b6 as u64) << 48) | ((b7 as u64) << 56))
    }

    pub fn read_i64(&mut self) -> (r: Result<i64, Error>)
        requires
            old(self).wf(),
        ensures
            final(self).wf(),
            final(self).spec_data() == old(self).spec_data(),
            match r {
                Ok(v) => old(self).spec_pos() + 8 <= old(self).spec_data().len() && final(self).spec_pos() == old(self).spec_pos() + 8 && v == le64(old(self).spec_data(), old(self).spec_pos()) as i64,
                Err(e) => old(self).spec_pos() + 8 > old(self).spec_data().len() && e == Error::OffsetOutsideData(old(self).spec_pos() as usize, (old(self).spec_pos() + 8) as usize) && *final(self) == *old(self),
            },
    {
        match self.read_u64() {
            Ok(v) => Ok(v as i64),
            Err(e) => Err(e),
        }
    }

    /// Reads the raw bits of a 64-bit IEEE-754 float.
    pub fn read_f64_bits(&mut self) -> (r: Result<u64, Error>)
        requires
            old(self).wf(),
        ensures
            final(self).wf(),
            final(self).spec_data() == old(self).spec_data(),
            match r {
                Ok(v) => old(self).spec_pos() + 8 <= old(self).spec_data().len() && final(self).spec_pos() == old(self).spec_pos() + 8 && v == le64(old(self).spec_data(), old(self).spec_pos()),
                Err(e) => old(self).spec_pos() + 8 > old(self).spec_data().len() && e == Error::OffsetOutsideData(old(self).spec_pos() as usize, (old(self).spec_pos() + 8) as usize) && *final(self) == *old(self),
            },
    {
        self.read_u64()
    }

    /// Reads a one-byte boolean: `0` and `1` are the only encodings.
    pub fn read_bool(&mut self) -> (r: Result<bool, Error>)
        requires
            old(self).wf(),
        ensures
            final(self).wf(),
            final(self).spec_data() == old(self).spec_data(),
            match r {
                Ok(v) => spec_read_bool(old(self).spec_data(), old(self).spec_pos()) == Ok::<_, Error>((v, final(self).spec_pos())),
                Err(e) => spec_read_bool(old(self).spec_data(), old(self).spec_pos()) == Err::<(bool, int), _>(e) && *final(self) == *old(self),
            },
    {
        if self.data.len() - self.pos < 1 {
            return Err(Error::OffsetOutsideData(self.pos, self.pos + 1));
        }
        let b = self.data[self.pos];
        if b == 1 {
            self.pos = self.pos + 1;
            Ok(true)
        } else if b == 0 {
            self.pos = self.pos + 1;
            Ok(false)
        } else {
            Err(Error::InvalidBoolEncoding(b, self.pos))
        }
    }

    /// Scans from `start` in two-byte steps for a pair of zero bytes.
    fn scan_terminator(&self, start: usize) -> (r: Option<usize>)
        requires
            self.wf(),
            start <= self.spec_data().len(),
        ensures
            match r {
                Some(t) => find_terminator(self.spec_data(), start as int) == Some(t as int)
                    && start <= t && t + 1 < self.spec_data().len() && (t - start) % 2 == 0,
                None => find_terminator(self.spec_data(), start as int) is None,
            },
    {
        let mut i = start;
        while i + 1 < self.data.len()
            invariant
                self.wf(),
                start <= i,
                i <= self.spec_data().len() + 1,
                (i - start) % 2 == 0,
                find_terminator(self.spec_data(), start as int) == find_terminator(
                    self.spec_data(),
                    i as int,
                ),
            decreases self.spec_data().len() - i,
        {
            if self.data[i] == 0 && self.data[i + 1] == 0 {
                return Some(i);
            }
            i = i + 2;
        }
        None
    }

    /// Reads a string field: follows the header's absolute offset and scans
    /// the payload in two-byte steps to its zero terminator, yielding the
    /// UCS-2 code units.
    pub fn read_str(&mut self) -> (r: Result<Vec<u16>, Error>)
        requires
            old(self).wf(),
        ensures
            final(self).wf(),
            final(self).spec_data() == old(self).spec_data(),
            match r {
                Ok(v) => spec_read_str(old(self).spec_data(), old(self).spec_pos()) == Ok::<
                    _,
                    Error,
                >((v@, final(self).spec_pos())),
                Err(e) => spec_read_str(old(self).spec_data(), old(self).spec_pos()) == Err::<
                    (Seq<u16>, int),
                    _,
                >(e) && final(self).spec_pos() == old(self).spec_pos(),
            },
    {
        let ghost s = self.spec_data();
        let start = self.pos;
        let raw = match self.read_u16() {
            Ok(v) => v,
            Err(e) => {
                return Err(e);
            },
        };
        let hdr_end = self.pos;
        if raw < 4 {
            self.seek(start);
            return Err(Error::OffsetOutsideData(hdr_end, raw as usize));
        }
        let abs = (raw - 4) as usize;
        if abs >= self.data.len() {
            self.seek(start);
            return Err(Error::OffsetOutsideData(hdr_end, abs));
        }
        let t = match self.scan_terminator(abs) {
            Some(t) => t,
            None => {
                self.seek(start);
                return Err(Error::StringNotNullTerminated(hdr_end));
            },
        };
        // Collect the code units before the terminator.
        let m = (t - abs) / 2;
        let mut units: Vec<u16> = Vec::new();
        let mut j: usize = 0;
        proof {
            assert(units@ =~= units_at(s, abs as int, 0));
            assert(abs + 2 * m == t) by {
                assert((t - abs) % 2 == 0);
            }
        }
        while j < m
            invariant
                self.wf(),
                self.spec_data() == s,
                j <= m,
                abs + 2 * m + 1 < s.len(),
                units@ =~= units_at(s, abs as int, j as int),
            decreases m - j,
        {
            let b0 = self.data[abs + 2 * j];
            let b1 = self.data[abs + 2 * j + 1];
            units.push((b0 as u16) | ((b1 as u16) << 8));
            proof {
                assert(units@ =~= units_at(s, abs as int, (j + 1) as int));
            }
            j = j + 1;
        }
        Ok(units)
    }

    /// Reads a byte-buffer field: a header of absolute offset and length,
    /// then the raw payload. An absent payload (offset `0`) is accepted only
    /// with length `0`.
    pub fn read_bytes(&mut self) -> (r: Result<Vec<u8>, Error>)
        requires
            old(self).wf(),
        ensures
            final(self).wf(),
            final(self).spec_data() == old(self).spec_data(),
            match r {
                Ok(v) => spec_read_bytes(old(self).spec_data(), old(self).spec_pos()) == Ok::<
                    _,
                    Error,
                >((v@, final(self).spec_pos())),
                Err(e) => spec_read_bytes(old(self).spec_data(), old(self).spec_pos()) == Err::<
                    (Seq<u8>, int),
                    _,
                >(e) && final(self).spec_pos() == old(self).spec_pos(),
            },
    {
        let ghost s = self.spec_data();
        let start = self.pos;
        let raw = match self.read_u16() {
            Ok(v) => v,
            Err(e) => {
                return Err(e);
            },
        };
        let l = match self.read_u16() {
            Ok(v) => v,
            Err(e) => {
                self.seek(start);
                return Err(e);
            },
        };
        let hdr_end = self.pos;
        if raw == 0 {
            if l == 0 {
                let empty: Vec<u8> = Vec::new();
                proof {
                    assert(empty@ =~= Seq::<u8>::empty());
                }
                return Ok(empty);
            } else {
                self.seek(start);
                return Err(Error::OffsetOutsideData(hdr_end, 0));
            }
        }
        if raw < 4 {
            self.seek(start);
            return Err(Error::OffsetOutsideData(hdr_end, raw as usize));
        }
        let abs = (raw - 4) as usize;
        if l as usize > self.data.len() || abs > self.data.len() - l as usize {
            self.seek(start);
            return Err(Error::BytesTooBig(hdr_end));
        }
        let mut out: Vec<u8> = Vec::new();
        let mut j: usize = 0;
        while j < l as usize
            invariant
                self.wf(),
                self.spec_data() == s,
                j <= l,
                abs + l <= s.len(),
                out@ =~= s.subrange(abs as int, abs as int + j as int),
            decreases l as int - j,
        {
            out.push(self.data[abs + j]);
            proof {
                assert(out@ =~= s.subrange(abs as int, abs as int + j + 1));
            }
            j = j + 1;
        }
        Ok(out)
    }

    /// Steps to the sequence element expected at absolute offset `cur_raw`:
    /// checks the element's stored offset against it, reads the stored
    /// next-offset, and leaves the cursor at the element body.
    pub fn seq_advance(&mut self, cur_raw: u16) -> (r: Result<u16, Error>)
        requires
            old(self).wf(),
        ensures
            final(self).wf(),
            final(self).spec_data() == old(self).spec_data(),
            match r {
                Ok(next) => spec_seq_advance(
                    old(self).spec_data(),
                    old(self).spec_pos(),
                    cur_raw as int,
                ) == Ok::<_, Error>((next, final(self).spec_pos())),
                Err(e) => spec_seq_advance(
                    old(self).spec_data(),
                    old(self).spec_pos(),
                    cur_raw as int,
                ) == Err::<(u16, int), _>(e) && final(self).spec_pos() == old(self).spec_pos(),
            },
    {
        let start = self.pos;
        if cur_raw < 4 {
            return Err(Error::OffsetOutsideData(self.pos, cur_raw as usize));
        }
        let abs = (cur_raw - 4) as usize;
        if abs >= self.data.len() {
            return Err(Error::OffsetOutsideData(self.pos, abs));
        }
        self.seek(abs);
        let self_raw = match self.read_u16() {
            Ok(v) => v,
            Err(e) => {
                self.seek(start);
                return Err(e);
            },
        };
        if self_raw < 4 {
            let p = self.pos;
            self.seek(start);
            return Err(Error::OffsetOutsideData(p, self_raw as usize));
        }
        if (self_raw - 4) as usize != abs {
            self.seek(start);
            return Err(Error::InvalidSeqEntry((self_raw - 4) as usize));
        }
        let next_raw = match self.read_u16() {
            Ok(v) => v,
            Err(e) => {
                self.seek(start);
                return Err(e);
            },
        };
        Ok(next_raw)
    }
}

} // verus!

//! The schema-defined packets the core exchanges, with their bodies' encode
//! and decode routines and the round-trip laws relating them.
//!
//! Scalars are inline and little-endian; enumerations are 32-bit unsigned on
//! the wire; strings and byte buffers live out-of-line behind absolute
//! 16-bit offsets that count the four-byte frame header; sequences are
//! linked lists of elements, each prefixed by its own offset and the next
//! element's.
use vstd::prelude::*;

use crate::bytes::{le16, le32, le16_bytes, le32_bytes, lemma_le16_recompose, lemma_le32_recompose,
    lemma_le16_zero};
use crate::de::{Deserializer, MAX_FRAME_LEN, find_terminator, spec_read_bool, spec_read_str,
    spec_read_bytes, spec_seq_advance, units_at};
use crate::error::Error;
use crate::ser::{push_bool, push_u8, push_u16, push_u32};

verus! {

/// The game regions a client may log in from; serialized as a 32-bit
/// enumeration.
#[derive(Clone, Copy, Debug, PartialEq, Eq, Structural)]
pub enum Region {
    International,
    Korea,
    Usa,
    Japan,
    Germany,
    France,
    Europe,
    Taiwan,
    Russia,
}

/// The wire discriminant of a region.
pub open spec fn spec_region_code(r: Region) -> u32 {
    match r {
        Region::International => 0,
        Region::Korea => 1,
        Region::Usa => 2,
        Region::Japan => 3,
        Region::Germany => 4,
        Region::France => 5,
        Region::Europe => 6,
        Region::Taiwan => 7,
        Region::Russia => 8,
    }
}

/// The region a wire discriminant denotes, if any.
pub open spec fn spec_region_from_code(c: u32) -> Option<Region> {
    if c == 0 {
        Some(Region::International)
    } else if c == 1 {
        Some(Region::Korea)
    } else if c == 2 {
        Some(Region::Usa)
    } else if c == 3 {
        Some(Region::Japan)
    } else if c == 4 {
        Some(Region::Germany)
    } else if c == 5 {
        Some(Region::France)
    } else if c == 6 {
        Some(Region::Europe)
    } else if c == 7 {
        Some(Region::Taiwan)
    } else if c == 8 {
        Some(Region::Russia)
    } else {
        None
    }
}

impl Region {
    pub fn code(&self) -> (c: u32)
        ensures
            c == spec_region_code(*self),
    {
        match self {
            Region::International => 0,
            Region::Korea => 1,
            Region::Usa => 2,
            Region::Japan => 3,
            Region::Germany => 4,
            Region::France => 5,
            Region::Europe => 6,
            Region::Taiwan => 7,
            Region::Russia => 8,
        }
    }

    pub fn from_code(c: u32) -> (r: Option<Region>)
        ensures
            r == spec_region_from_code(c),
    {
        if c == 0 {
            Some(Region::International)
        } else if c == 1 {
            Some(Region::Korea)
        } else if c == 2 {
            Some(Region::Usa)
        } else if c == 3 {
            Some(Region::Japan)
        } else if c == 4 {
            Some(Region::Germany)
        } else if c == 5 {
            Some(Region::France)
        } else if c == 6 {
            Some(Region::Europe)
        } else if c == 7 {
            Some(Region::Taiwan)
        } else if c == 8 {
            Some(Region::Russia)
        } else {
            None
        }
    }
}

/// A region's discriminant maps back to the region itself.
pub proof fn lemma_region_code_roundtrip(r: Region)
    ensures
        spec_region_from_code(spec_region_code(r)) == Some(r),
{
}

/// The version-check response: one boolean.
#[derive(Clone, Copy, Debug, PartialEq, Eq, Structural)]
pub struct SCheckVersion {
    pub ok: bool,
}

pub open spec fn spec_encode_s_check_version(p: SCheckVersion) -> Seq<u8> {
    seq![(if p.ok { 1u8 } else { 0u8 })]
}

pub open spec fn spec_decode_s_check_version(s: Seq<u8>) -> Result<SCheckVersion, Error> {
    match spec_read_bool(s, 0) {
        Ok((b, _)) => Ok(SCheckVersion { ok: b }),
        Err(e) => Err(e),
    }
}

impl SCheckVersion {
    pub fn encode(&self) -> (r: Vec<u8>)
        ensures
            r@ == spec_encode_s_check_version(*self),
    {
        let mut out: Vec<u8> = Vec::new();
        push_bool(&mut out, self.ok);
        proof {
            assert(out@ =~= spec_encode_s_check_version(*self));
        }
        out
    }

    pub fn decode(data: Vec<u8>) -> (r: Result<SCheckVersion, Error>)
        requires
            data@.len() <= MAX_FRAME_LEN,
        ensures
            r == spec_decode_s_check_version(data@),
    {
        let mut d = Deserializer::from_vec(data);
        match d.read_bool() {
            Ok(b) => Ok(SCheckVersion { ok: b }),
            Err(e) => Err(e),
        }
    }
}

/// Decoding an encoded version-check response yields the packet again.
pub proof fn lemma_s_check_version_roundtrip(p: SCheckVersion)
    ensures
        spec_decode_s_check_version(spec_encode_s_check_version(p)) == Ok::<_, Error>(p),
{
}

/// The loading-screen push sent after post-initialization: one boolean.
#[derive(Clone, Copy, Debug, PartialEq, Eq, Structural)]
pub struct SLoadingScreenControlInfo {
    pub custom_screen_enabled: bool,
}

pub open spec fn spec_encode_s_loading_screen(p: SLoadingScreenControlInfo) -> Seq<u8> {
    seq![(if p.custom_screen_enabled { 1u8 } else { 0u8 })]
}

pub open spec fn spec_decode_s_loading_screen(s: Seq<u8>) -> Result<
    SLoadingScreenControlInfo,
    Error,
> {
    match spec_read_bool(s, 0) {
        Ok((b, _)) => Ok(SLoadingScreenControlInfo { custom_screen_enabled: b }),
        Err(e) => Err(e),
    }
}

impl SLoadingScreenControlInfo {
    pub fn encode(&self) -> (r: Vec<u8>)
        ensures
            r@ == spec_encode_s_loading_screen(*self),
    {
        let mut out: Vec<u8> = Vec::new();
        push_bool(&mut out, self.custom_screen_enabled);
        proof {
            assert(out@ =~= spec_encode_s_loading_screen(*self));
        }
        out
    }

    pub fn decode(data: Vec<u8>) -> (r: Result<SLoadingScreenControlInfo, Error>)
        requires
            data@.len() <= MAX_FRAME_LEN,
        ensures
            r == spec_decode_s_loading_screen(data@),
    {
        let mut d = Deserializer::from_vec(data);
        match d.read_bool() {
            Ok(b) => Ok(SLoadingScreenControlInfo { custom_screen_enabled: b }),
            Err(e) => Err(e),
        }
    }
}

/// Decoding an encoded loading-screen push yields the packet again.
pub proof fn lemma_s_loading_screen_roundtrip(p: SLoadingScreenControlInfo)
    ensures
        spec_decode_s_loading_screen(spec_encode_s_loading_screen(p)) == Ok::<_, Error>(p),
{
}

/// The server's keep-alive probe; its body is empty.
#[derive(Clone, Copy, Debug, PartialEq, Eq, Structural)]
pub struct SPing {}

/// The client's keep-alive answer; its body is empty.
#[derive(Clone, Copy, Debug, PartialEq, Eq, Structural)]
pub struct CPong {}

impl SPing {
    pub fn encode(&self) -> (r: Vec<u8>)
        ensures
            r@ == Seq::<u8>::empty(),
    {
        let out: Vec<u8> = Vec::new();
        proof {
            assert(out@ =~= Seq::<u8>::empty());
        }
        out
    }

    pub fn decode(data: Vec<u8>) -> (r: Result<SPing, Error>)
        ensures
            r == Ok::<_, Error>(SPing {}),
    {
        Ok(SPing {})
    }
}

impl CPong {
    pub fn encode(&self) -> (r: Vec<u8>)
        ensures
            r@ == Seq::<u8>::empty(),
    {
        let out: Vec<u8> = Vec::new();
        proof {
            assert(out@ =~= Seq::<u8>::empty());
        }
        out
    }

    pub fn decode(data: Vec<u8>) -> (r: Result<CPong, Error>)
        ensures
            r == Ok::<_, Error>(CPong {}),
    {
        Ok(CPong {})
    }
}

/// The login-arbiter response: the server's verdict on the ticket.
#[derive(Clone, Copy, Debug, PartialEq, Eq, Structural)]
pub struct SLoginArbiter {
    pub success: bool,
    pub login_queue: bool,
    pub status: u32,
    pub unk1: u32,
    pub region: Region,
    pub pvp_disabled: bool,
    pub unk2: u16,
    pub unk3: u16,
}

pub open spec fn spec_encode_s_login_arbiter(p: SLoginArbiter) -> Seq<u8> {
    seq![(if p.success { 1u8 } else { 0u8 }), (if p.login_queue { 1u8 } else { 0u8 })]
        + le32_bytes(p.status) + le32_bytes(p.unk1) + le32_bytes(spec_region_code(p.region))
        + seq![(if p.pvp_disabled { 1u8 } else { 0u8 })] + le16_bytes(p.unk2) + le16_bytes(p.unk3)
}

pub open spec fn spec_decode_s_login_arbiter(s: Seq<u8>) -> Result<SLoginArbiter, Error> {
    match spec_read_bool(s, 0) {
        Err(e) => Err(e),
        Ok((success, _)) => match spec_read_bool(s, 1) {
            Err(e) => Err(e),
            Ok((login_queue, _)) => if s.len() < 6 {
                Err(Error::OffsetOutsideData(2, 6))
            } else if s.len() < 10 {
                Err(Error::OffsetOutsideData(6, 10))
            } else if s.len() < 14 {
                Err(Error::OffsetOutsideData(10, 14))
            } else {
                let rc = le32(s, 10);
                match spec_region_from_code(rc) {
                    None => Err(Error::UnknownEnum(10, rc)),
                    Some(region) => match spec_read_bool(s, 14) {
                        Err(e) => Err(e),
                        Ok((pvp_disabled, _)) => if s.len() < 17 {
                            Err(Error::OffsetOutsideData(15, 17))
                        } else if s.len() < 19 {
                            Err(Error::OffsetOutsideData(17, 19))
                        } else {
                            Ok(
                                SLoginArbiter {
                                    success,
                                    login_queue,
                                    status: le32(s, 2),
                                    unk1: le32(s, 6),
                                    region,
                                    pvp_disabled,
                                    unk2: le16(s, 15),
                                    unk3: le16(s, 17),
                                },
                            )
                        },
                    },
                }
            },
        },
    }
}

impl SLoginArbiter {
    pub fn encode(&self) -> (r: Vec<u8>)
        ensures
            r@ == spec_encode_s_login_arbiter(*self),
    {
        let mut out: Vec<u8> = Vec::new();
        push_bool(&mut out, self.success);
        push_bool(&mut out, self.login_queue);
        push_u32(&mut out, self.status);
        push_u32(&mut out, self.unk1);
        push_u32(&mut out, self.region.code());
        push_bool(&mut out, self.pvp_disabled);
        push_u16(&mut out, self.unk2);
        push_u16(&mut out, self.unk3);
        proof {
            assert(out@ =~= spec_encode_s_login_arbiter(*self));
        }
        out
    }

    pub fn decode(data: Vec<u8>) -> (r: Result<SLoginArbiter, Error>)
        requires
            data@.len() <= MAX_FRAME_LEN,
        ensures
            r == spec_decode_s_login_arbiter(data@),
    {
        let mut d = Deserializer::from_vec(data);
        let success = match d.read_bool() {
            Ok(v) => v,
            Err(e) => {
                return Err(e);
            },
        };
        let login_queue = match d.read_bool() {
            Ok(v) => v,
            Err(e) => {
                return Err(e);
            },
        };
        let status = match d.read_u32() {
            Ok(v) => v,
            Err(e) => {
                return Err(e);
            },
        };
        let unk1 = match d.read_u32() {
            Ok(v) => v,
            Err(e) => {
                return Err(e);
            },
        };
        let rc = match d.read_u32() {
            Ok(v) => v,
            Err(e) => {
                return Err(e);
            },
        };
        let region = match Region::from_code(rc) {
            Some(v) => v,
            None => {
                return Err(Error::UnknownEnum(10, rc));
            },
        };
        let pvp_disabled = match d.read_bool() {
            Ok(v) => v,
            Err(e) => {
                return Err(e);
            },
        };
        let unk2 = match d.read_u16() {
            Ok(v) => v,
            Err(e) => {
                return Err(e);
            },
        };
        let unk3 = match d.read_u16() {
            Ok(v) => v,
            Err(e) => {
                return Err(e);
            },
        };
        Ok(
            SLoginArbiter {
                success,
                login_queue,
                status,
                unk1,
                region,
                pvp_disabled,
                unk2,
                unk3,
            },
        )
    }
}

/// Decoding an encoded login-arbiter response yields the packet again.
pub proof fn lemma_s_login_arbiter_roundtrip(p: SLoginArbiter)
    ensures
        spec_decode_s_login_arbiter(spec_encode_s_login_arbiter(p)) == Ok::<_, Error>(p),
{
    let s = spec_encode_s_login_arbiter(p);
    assert(s.len() == 19);
    lemma_le32_recompose(s, 2, p.status);
    lemma_le32_recompose(s, 6, p.unk1);
    lemma_le32_recompose(s, 10, spec_region_code(p.region));
    lemma_region_code_roundtrip(p.region);
    lemma_le16_recompose(s, 15, p.unk2);
    lemma_le16_recompose(s, 17, p.unk3);
}

/// One entry of the client's version array.
#[derive(Clone, Copy, Debug, PartialEq, Eq, Structural)]
pub struct CCheckVersionEntry {
    pub index: u32,
    pub value: u32,
}

/// The client's version check: a sequence of entries, stored out-of-line as
/// a linked list of 12-byte elements (4 bytes of offsets, 8 of payload).
#[derive(Clone, Debug, PartialEq)]
pub struct CCheckVersion {
    pub version: Vec<CCheckVersionEntry>,
}

impl View for CCheckVersion {
    type V = Seq<CCheckVersionEntry>;

    closed spec fn view(&self) -> Seq<CCheckVersionEntry> {
        self.version@
    }
}

/// The most entries whose encoding still fits below the frame cap.
pub const CCV_MAX_ENTRIES: usize = 2729;

/// The absolute wire offset of element `i` of the version array.
pub open spec fn ccv_elem_raw(i: int) -> int {
    8 + 12 * i
}

/// The next-offset stored in element `i`: the following element, or `0`
/// after the last.
pub open spec fn ccv_next_raw(i: int, n: int) -> int {
    if i + 1 == n {
        0
    } else {
        8 + 12 * (i + 1)
    }
}

/// Byte `j` of an encoded version check with entries `es`.
pub open spec fn ccv_byte(es: Seq<CCheckVersionEntry>, j: int) -> u8 {
    let n = es.len() as int;
    if j < 2 {
        le16_bytes(n as u16)[j]
    } else if j < 4 {
        le16_bytes((if n == 0 { 0int } else { 8int }) as u16)[j - 2]
    } else {
        let i = (j - 4) / 12;
        let k = (j - 4) % 12;
        if k < 2 {
            le16_bytes(ccv_elem_raw(i) as u16)[k]
        } else if k < 4 {
            le16_bytes(ccv_next_raw(i, n) as u16)[k - 2]
        } else if k < 8 {
            le32_bytes(es[i].index)[k - 4]
        } else {
            le32_bytes(es[i].value)[k - 8]
        }
    }
}

pub open spec fn spec_encode_c_check_version(es: Seq<CCheckVersionEntry>) -> Seq<u8> {
    Seq::new((4 + 12 * es.len()) as nat, |j: int| ccv_byte(es, j))
}

/// What decoding the version array's elements yields, starting at the
/// element expected at absolute offset `cur_raw`, with `n` elements left;
/// `pos` is only recorded in the error payloads.
pub open spec fn spec_decode_ccv_entries(s: Seq<u8>, pos: int, cur_raw: int, n: nat) -> Result<
    Seq<CCheckVersionEntry>,
    Error,
>
    decreases n,
{
    if n == 0 {
        Ok(Seq::empty())
    } else {
        match spec_seq_advance(s, pos, cur_raw) {
            Err(e) => Err(e),
            Ok((next_raw, bpos)) => {
                if bpos + 4 > s.len() {
                    Err(Error::OffsetOutsideData(bpos as usize, (bpos + 4) as usize))
                } else if bpos + 8 > s.len() {
                    Err(Error::OffsetOutsideData((bpos + 4) as usize, (bpos + 8) as usize))
                } else {
                    let e0 = CCheckVersionEntry { index: le32(s, bpos), value: le32(s, bpos + 4) };
                    match spec_decode_ccv_entries(s, bpos + 8, next_raw as int, (n - 1) as nat) {
                        Ok(rest) => Ok(seq![e0] + rest),
                        Err(e) => Err(e),
                    }
                }
            },
        }
    }
}

pub open spec fn spec_decode_c_check_version(s: Seq<u8>) -> Result<
    Seq<CCheckVersionEntry>,
    Error,
> {
    if s.len() < 2 {
        Err(Error::OffsetOutsideData(0, 2))
    } else if s.len() < 4 {
        Err(Error::OffsetOutsideData(2, 4))
    } else {
        spec_decode_ccv_entries(s, 4, le16(s, 2) as int, le16(s, 0) as nat)
    }
}

impl CCheckVersion {
    /// The encoding fits below the frame cap.
    pub open spec fn wf(&self) -> bool {
        self.version@.len() <= CCV_MAX_ENTRIES
    }

    pub fn encode(&self) -> (r: Result<Vec<u8>, Error>)
        ensures
            match r {
                Ok(v) => self.wf() && v@ == spec_encode_c_check_version(self@),
                Err(e) => !self.wf() && e == Error::PacketTooLarge(self.version@.len() as usize),
            },
    {
        let n = self.version.len();
        if n > CCV_MAX_ENTRIES {
            return Err(Error::PacketTooLarge(n));
        }
        let ghost es = self@;
        let mut out: Vec<u8> = Vec::new();
        push_u16(&mut out, n as u16);
        push_u16(&mut out, if n == 0 { 0 } else { 8 });
        proof {
            assert forall|j: int| 0 <= j < out@.len() implies out@[j] == ccv_byte(es, j) by {
                if j < 2 {
                    assert(out@[j] == le16_bytes(n as u16)[j]);
                } else {
                    assert(out@[j] == le16_bytes((if n == 0 { 0int } else { 8int }) as u16)[j - 2]);
                }
            }
        }
        let mut i: usize = 0;
        while i < n
            invariant
                i <= n,
                n == es.len(),
                n <= CCV_MAX_ENTRIES,
                n == self.version@.len(),
                es == self@,
                out@.len() == 4 + 12 * i,
                forall|j: int| 0 <= j < out@.len() ==> out@[j] == #[trigger] ccv_byte(es, j),
            decreases n - i,
        {
            let self_raw: u16 = (8 + 12 * i) as u16;
            let next_raw: u16 = if i + 1 == n {
                0
            } else {
                (8 + 12 * (i + 1)) as u16
            };
            let entry = self.version[i];
            let ghost len0 = out@.len() as int;
            push_u16(&mut out, self_raw);
            push_u16(&mut out, next_raw);
            push_u32(&mut out, entry.index);
            push_u32(&mut out, entry.value);
            proof {
                lemma_mul_bounds_ccv(i as int, n as int);
                assert forall|j: int| 0 <= j < out@.len() implies out@[j] == #[trigger] ccv_byte(
                    es,
                    j,
                ) by {
                    if j >= len0 {
                        let k = j - 4 - 12 * (i as int);
                        lemma_div_mod_12(i as int, k);
                        assert(out@[j] == (le16_bytes(self_raw) + le16_bytes(next_raw)
                            + le32_bytes(entry.index) + le32_bytes(entry.value))[k]);
                    }
                }
            }
            i = i + 1;
        }
        proof {
            assert(out@ =~= spec_encode_c_check_version(es));
        }
        Ok(out)
    }

    pub fn decode(data: Vec<u8>) -> (r: Result<CCheckVersion, Error>)
        requires
            data@.len() <= MAX_FRAME_LEN,
        ensures
            match r {
                Ok(p) => spec_decode_c_check_version(data@) == Ok::<_, Error>(p@),
                Err(e) => spec_decode_c_check_version(data@) == Err::<Seq<CCheckVersionEntry>, _>(
                    e,
                ),
            },
    {
        let ghost s = data@;
        let mut d = Deserializer::from_vec(data);
        let count = match d.read_u16() {
            Ok(v) => v,
            Err(e) => {
                return Err(e);
            },
        };
        let first_raw = match d.read_u16() {
            Ok(v) => v,
            Err(e) => {
                return Err(e);
            },
        };
        let mut entries: Vec<CCheckVersionEntry> = Vec::new();
        let mut cur_raw = first_raw;
        let mut i: u16 = 0;
        proof {
            assert(entries@ + spec_decode_ccv_entries(s, 4, first_raw as int, count as nat)->Ok_0
                =~= spec_decode_ccv_entries(s, 4, first_raw as int, count as nat)->Ok_0);
        }
        while i < count
            invariant
                d.wf(),
                d.spec_data() == s,
                s == data@,
                s.len() >= 4,
                count == le16(s, 0),
                first_raw == le16(s, 2),
                i <= count,
                spec_decode_ccv_entries(s, 4, first_raw as int, count as nat) == (match
                    spec_decode_ccv_entries(s, d.spec_pos(), cur_raw as int, (count - i) as nat) {
                    Ok(rest) => Ok::<_, Error>(entries@ + rest),
                    Err(e) => Err::<Seq<CCheckVersionEntry>, _>(e),
                }),
            decreases count - i,
        {
            let ghost rem0 = spec_decode_ccv_entries(s, d.spec_pos(), cur_raw as int, (count
                - i) as nat);
            let next_raw = match d.seq_advance(cur_raw) {
                Ok(v) => v,
                Err(e) => {
                    proof {
                        assert(rem0 == Err::<Seq<CCheckVersionEntry>, Error>(e));
                    }
                    return Err(e);
                },
            };
            let index = match d.read_u32() {
                Ok(v) => v,
                Err(e) => {
                    proof {
                        assert(rem0 == Err::<Seq<CCheckVersionEntry>, Error>(e));
                    }
                    return Err(e);
                },
            };
            let value = match d.read_u32() {
                Ok(v) => v,
                Err(e) => {
                    proof {
                        assert(rem0 == Err::<Seq<CCheckVersionEntry>, Error>(e));
                    }
                    return Err(e);
                },
            };
            let entry = CCheckVersionEntry { index, value };
            proof {
                let rem1 = spec_decode_ccv_entries(s, d.spec_pos(), next_raw as int, (count - i
                    - 1) as nat);
                assert(rem0 == (match rem1 {
                    Ok(rest) => Ok::<_, Error>(seq![entry] + rest),
                    Err(e) => Err::<Seq<CCheckVersionEntry>, _>(e),
                }));
                if rem1 is Ok {
                    assert(entries@ + (seq![entry] + rem1->Ok_0) =~= (entries@ + seq![entry])
                        + rem1->Ok_0);
                    assert(entries@.push(entry) =~= entries@ + seq![entry]);
                }
            }
            entries.push(entry);
            cur_raw = next_raw;
            i = i + 1;
        }
        proof {
            assert(spec_decode_ccv_entries(s, d.spec_pos(), cur_raw as int, 0) == Ok::<
                Seq<CCheckVersionEntry>,
                Error,
            >(Seq::empty()));
            assert(entries@ + Seq::<CCheckVersionEntry>::empty() =~= entries@);
        }
        let p = CCheckVersion { version: entries };
        Ok(p)
    }
}

/// Decoding the elements of an encoded version array from element `i` on
/// yields exactly the entries from `i` on, whatever position the error
/// payloads would record.
#[verifier::rlimit(60)]
proof fn lemma_ccv_entries_decode(es: Seq<CCheckVersionEntry>, i: int, pos: int, cur_raw: int)
    requires
        0 <= i <= es.len(),
        es.len() <= CCV_MAX_ENTRIES,
        i < es.len() ==> cur_raw == 8 + 12 * i,
    ensures
        spec_decode_ccv_entries(
            spec_encode_c_check_version(es),
            pos,
            cur_raw,
            (es.len() - i) as nat,
        ) == Ok::<_, Error>(es.skip(i)),
    decreases es.len() - i,
{
    let s = spec_encode_c_check_version(es);
    let n = es.len() as int;
    assert(s.len() == 4 + 12 * n);
    if i == n {
        assert(es.skip(i) =~= Seq::empty());
    } else {
        lemma_mul_bounds_ccv(i, n);
        let abs = 4 + 12 * i;
        lemma_div_mod_12(i, 0);
        lemma_div_mod_12(i, 1);
        lemma_div_mod_12(i, 2);
        lemma_div_mod_12(i, 3);
        lemma_div_mod_12(i, 4);
        lemma_div_mod_12(i, 5);
        lemma_div_mod_12(i, 6);
        lemma_div_mod_12(i, 7);
        lemma_div_mod_12(i, 8);
        lemma_div_mod_12(i, 9);
        lemma_div_mod_12(i, 10);
        lemma_div_mod_12(i, 11);
        assert(s[abs] == le16_bytes(ccv_elem_raw(i) as u16)[0]);
        assert(s[abs + 1] == le16_bytes(ccv_elem_raw(i) as u16)[1]);
        lemma_le16_recompose(s, abs, ccv_elem_raw(i) as u16);
        assert(s[abs + 2] == le16_bytes(ccv_next_raw(i, n) as u16)[0]);
        assert(s[abs + 3] == le16_bytes(ccv_next_raw(i, n) as u16)[1]);
        lemma_le16_recompose(s, abs + 2, ccv_next_raw(i, n) as u16);
        assert(s[abs + 4] == le32_bytes(es[i].index)[0]);
        assert(s[abs + 5] == le32_bytes(es[i].index)[1]);
        assert(s[abs + 6] == le32_bytes(es[i].index)[2]);
        assert(s[abs + 7] == le32_bytes(es[i].index)[3]);
        lemma_le32_recompose(s, abs + 4, es[i].index);
        assert(s[abs + 8] == le32_bytes(es[i].value)[0]);
        assert(s[abs + 9] == le32_bytes(es[i].value)[1]);
        assert(s[abs + 10] == le32_bytes(es[i].value)[2]);
        assert(s[abs + 11] == le32_bytes(es[i].value)[3]);
        lemma_le32_recompose(s, abs + 8, es[i].value);
        assert(spec_seq_advance(s, pos, cur_raw) == Ok::<_, Error>(
            (ccv_next_raw(i, n) as u16, abs + 4),
        ));
        lemma_ccv_entries_decode(es, i + 1, abs + 12, ccv_next_raw(i, n));
        assert(ccv_next_raw(i, n) as u16 as int == ccv_next_raw(i, n));
        assert(seq![es[i]] + es.skip(i + 1) =~= es.skip(i));
    }
}

/// Decoding an encoded version check yields the entries again: the
/// round-trip law of the sequence packet.
pub proof fn lemma_c_check_version_roundtrip(es: Seq<CCheckVersionEntry>)
    requires
        es.len() <= CCV_MAX_ENTRIES,
    ensures
        spec_decode_c_check_version(spec_encode_c_check_version(es)) == Ok::<_, Error>(es),
{
    let s = spec_encode_c_check_version(es);
    let n = es.len() as int;
    assert(s.len() == 4 + 12 * n);
    assert(s[0] == le16_bytes(n as u16)[0]);
    assert(s[1] == le16_bytes(n as u16)[1]);
    lemma_le16_recompose(s, 0, n as u16);
    let first = (if n == 0 {
        0int
    } else {
        8int
    }) as u16;
    assert(s[2] == le16_bytes(first)[0]);
    assert(s[3] == le16_bytes(first)[1]);
    lemma_le16_recompose(s, 2, first);
    lemma_ccv_entries_decode(es, 0, 4, first as int);
    assert(es.skip(0) =~= es);
}

/// `12 * i + k` splits back into `i` and `k` under division by 12.
proof fn lemma_div_mod_12(i: int, k: int)
    requires
        0 <= k < 12,
        0 <= i,
    ensures
        (12 * i + k) / 12 == i,
        (12 * i + k) % 12 == k,
{
    assert((12 * i + k) / 12 == i && (12 * i + k) % 12 == k) by (nonlinear_arith)
        requires
            0 <= k < 12 && 0 <= i,
    ;
}

/// Offsets of elements below the entry cap fit in 16 bits.
proof fn lemma_mul_bounds_ccv(i: int, n: int)
    requires
        0 <= i < n,
        n <= CCV_MAX_ENTRIES,
    ensures
        8 + 12 * i < 0x8000,
        8 + 12 * (i + 1) <= 0x8000,
        4 + 12 * n <= 0x8000,
{
}


/// The login-arbiter request: account name, ticket, and client metadata.
#[derive(Clone, Debug, PartialEq)]
pub struct CLoginArbiter {
    /// The account name as UCS-2 code units, as it travels on the wire.
    pub master_account_name: Vec<u16>,
    pub ticket: Vec<u8>,
    pub unk1: u32,
    pub unk2: u32,
    pub region: Region,
    pub patch_version: u32,
}

/// The mathematical image of a login-arbiter request.
pub struct CLoginArbiterView {
    pub master_account_name: Seq<u16>,
    pub ticket: Seq<u8>,
    pub unk1: u32,
    pub unk2: u32,
    pub region: Region,
    pub patch_version: u32,
}

impl View for CLoginArbiter {
    type V = CLoginArbiterView;

    closed spec fn view(&self) -> CLoginArbiterView {
        CLoginArbiterView {
            master_account_name: self.master_account_name@,
            ticket: self.ticket@,
            unk1: self.unk1,
            unk2: self.unk2,
            region: self.region,
            patch_version: self.patch_version,
        }
    }
}

/// The longest account name whose encoding still fits below the frame cap.
pub const CLB_MAX_NAME_UNITS: usize = 16372;

/// An encodable login-arbiter request: it fits below the frame cap and its
/// name holds no zero code unit, which the null-terminated string encoding
/// cannot carry.
pub open spec fn clb_wf(p: CLoginArbiterView) -> bool {
    &&& 24 + 2 * p.master_account_name.len() + p.ticket.len() <= MAX_FRAME_LEN
    &&& forall|w: int|
        0 <= w < p.master_account_name.len() ==> p.master_account_name[w] != 0
}

/// Byte `j` of an encoded login-arbiter request: the six inline fields, the
/// name units with their terminator, then the ticket.
pub open spec fn clb_byte(p: CLoginArbiterView, j: int) -> u8 {
    let m = p.master_account_name.len() as int;
    if j < 2 {
        le16_bytes(26)[j]
    } else if j < 4 {
        le16_bytes((28 + 2 * m) as u16)[j - 2]
    } else if j < 6 {
        le16_bytes(p.ticket.len() as u16)[j - 4]
    } else if j < 10 {
        le32_bytes(p.unk1)[j - 6]
    } else if j < 14 {
        le32_bytes(p.unk2)[j - 10]
    } else if j < 18 {
        le32_bytes(spec_region_code(p.region))[j - 14]
    } else if j < 22 {
        le32_bytes(p.patch_version)[j - 18]
    } else if j < 22 + 2 * m {
        le16_bytes(p.master_account_name[(j - 22) / 2])[(j - 22) % 2]
    } else if j < 24 + 2 * m {
        0
    } else {
        p.ticket[j - 24 - 2 * m]
    }
}

pub open spec fn spec_encode_c_login_arbiter(p: CLoginArbiterView) -> Seq<u8> {
    Seq::new(
        (24 + 2 * p.master_account_name.len() + p.ticket.len()) as nat,
        |j: int| clb_byte(p, j),
    )
}

pub open spec fn spec_decode_c_login_arbiter(s: Seq<u8>) -> Result<CLoginArbiterView, Error> {
    match spec_read_str(s, 0) {
        Err(e) => Err(e),
        Ok((units, _)) => match spec_read_bytes(s, 2) {
            Err(e) => Err(e),
            Ok((tick, _)) => if s.len() < 10 {
                Err(Error::OffsetOutsideData(6, 10))
            } else if s.len() < 14 {
                Err(Error::OffsetOutsideData(10, 14))
            } else if s.len() < 18 {
                Err(Error::OffsetOutsideData(14, 18))
            } else {
                let rc = le32(s, 14);
                match spec_region_from_code(rc) {
                    None => Err(Error::UnknownEnum(14, rc)),
                    Some(region) => if s.len() < 22 {
                        Err(Error::OffsetOutsideData(18, 22))
                    } else {
                        Ok(
                            CLoginArbiterView {
                                master_account_name: units,
                                ticket: tick,
                                unk1: le32(s, 6),
                                unk2: le32(s, 10),
                                region,
                                patch_version: le32(s, 18),
                            },
                        )
                    },
                }
            },
        },
    }
}

/// The first zero code unit at or after `i`, if any.
pub open spec fn spec_first_zero_unit(units: Seq<u16>, i: int) -> Option<int>
    decreases units.len() - i,
{
    if i < 0 || i >= units.len() {
        None
    } else if units[i] == 0 {
        Some(i)
    } else {
        spec_first_zero_unit(units, i + 1)
    }
}

impl CLoginArbiter {
    pub fn decode(data: Vec<u8>) -> (r: Result<CLoginArbiter, Error>)
        requires
            data@.len() <= MAX_FRAME_LEN,
        ensures
            match r {
                Ok(p) => spec_decode_c_login_arbiter(data@) == Ok::<_, Error>(p@),
                Err(e) => spec_decode_c_login_arbiter(data@) == Err::<CLoginArbiterView, _>(e),
            },
    {
        let ghost s = data@;
        let mut d = Deserializer::from_vec(data);
        let master_account_name = match d.read_str() {
            Ok(v) => v,
            Err(e) => {
                return Err(e);
            },
        };
        let ticket = match d.read_bytes() {
            Ok(v) => v,
            Err(e) => {
                return Err(e);
            },
        };
        let unk1 = match d.read_u32() {
            Ok(v) => v,
            Err(e) => {
                return Err(e);
            },
        };
        let unk2 = match d.read_u32() {
            Ok(v) => v,
            Err(e) => {
                return Err(e);
            },
        };
        let rc = match d.read_u32() {
            Ok(v) => v,
            Err(e) => {
                return Err(e);
            },
        };
        let region = match Region::from_code(rc) {
            Some(v) => v,
            None => {
                return Err(Error::UnknownEnum(14, rc));
            },
        };
        let patch_version = match d.read_u32() {
            Ok(v) => v,
            Err(e) => {
                return Err(e);
            },
        };
        Ok(
            CLoginArbiter {
                master_account_name,
                ticket,
                unk1,
                unk2,
                region,
                patch_version,
            },
        )
    }

    pub fn encode(&self) -> (r: Result<Vec<u8>, Error>)
        ensures
            match r {
                Ok(v) => clb_wf(self@) && v@ == spec_encode_c_login_arbiter(self@),
                Err(e) => !clb_wf(self@) && (match spec_first_zero_unit(
                    self@.master_account_name,
                    0,
                ) {
                    Some(w) => e == Error::InvalidString(w as usize),
                    None => e is PacketTooLarge,
                }),
            },
    {
        let ghost v = self@;
        let m = self.master_account_name.len();
        let t = self.ticket.len();
        // A zero code unit would collide with the string terminator.
        let mut w: usize = 0;
        while w < m
            invariant
                w <= m,
                m == v.master_account_name.len(),
                v == self@,
                spec_first_zero_unit(v.master_account_name, 0) == spec_first_zero_unit(
                    v.master_account_name,
                    w as int,
                ),
                forall|x: int| 0 <= x < w ==> v.master_account_name[x] != 0,
            decreases m - w,
        {
            if self.master_account_name[w] == 0 {
                proof {
                    assert(spec_first_zero_unit(v.master_account_name, 0) == Some(w as int));
                    assert(!clb_wf(v));
                }
                return Err(Error::InvalidString(w));
            }
            w = w + 1;
        }
        if m > CLB_MAX_NAME_UNITS {
            return Err(Error::PacketTooLarge(m));
        }
        if t > MAX_FRAME_LEN - 24 - 2 * m {
            return Err(Error::PacketTooLarge(t));
        }
        let mut out: Vec<u8> = Vec::new();
        push_u16(&mut out, 26);
        push_u16(&mut out, (28 + 2 * m) as u16);
        push_u16(&mut out, t as u16);
        push_u32(&mut out, self.unk1);
        push_u32(&mut out, self.unk2);
        push_u32(&mut out, self.region.code());
        push_u32(&mut out, self.patch_version);
        proof {
            assert forall|j: int| 0 <= j < out@.len() implies out@[j] == #[trigger] clb_byte(
                v,
                j,
            ) by {
                if j < 2 {
                    assert(out@[j] == le16_bytes(26)[j]);
                } else if j < 4 {
                    assert(out@[j] == le16_bytes((28 + 2 * m) as u16)[j - 2]);
                } else if j < 6 {
                    assert(out@[j] == le16_bytes(t as u16)[j - 4]);
                } else if j < 10 {
                    assert(out@[j] == le32_bytes(self.unk1)[j - 6]);
                } else if j < 14 {
                    assert(out@[j] == le32_bytes(self.unk2)[j - 10]);
                } else if j < 18 {
                    assert(out@[j] == le32_bytes(spec_region_code(self.region))[j - 14]);
                } else {
                    assert(out@[j] == le32_bytes(self.patch_version)[j - 18]);
                }
            }
        }
        let mut w2: usize = 0;
        while w2 < m
            invariant
                w2 <= m,
                m <= CLB_MAX_NAME_UNITS,
                m == v.master_account_name.len(),
                m == self.master_account_name@.len(),
                v == self@,
                out@.len() == 22 + 2 * w2,
                forall|j: int| 0 <= j < out@.len() ==> out@[j] == #[trigger] clb_byte(v, j),
            decreases m - w2,
        {
            let ghost len0 = out@.len() as int;
            push_u16(&mut out, self.master_account_name[w2]);
            proof {
                lemma_div_mod_2(w2 as int, 0);
                lemma_div_mod_2(w2 as int, 1);
                assert forall|j: int| 0 <= j < out@.len() implies out@[j] == #[trigger] clb_byte(
                    v,
                    j,
                ) by {
                    if j >= len0 {
                        assert(out@[j] == le16_bytes(v.master_account_name[w2 as int])[j - len0]);
                    }
                }
            }
            w2 = w2 + 1;
        }
        let ghost len1 = out@.len() as int;
        push_u16(&mut out, 0);
        proof {
            assert(len1 == 22 + 2 * (m as int));
            assert((0u16 & 0xff) as u8 == 0 && ((0u16 >> 8) & 0xff) as u8 == 0) by (bit_vector);
            assert forall|j: int| 0 <= j < out@.len() implies out@[j] == #[trigger] clb_byte(
                v,
                j,
            ) by {
                if j >= len1 {
                    assert(out@[j] == le16_bytes(0)[j - len1]);
                }
            }
        }
        let mut k: usize = 0;
        while k < t
            invariant
                k <= t,
                t == v.ticket.len(),
                t == self.ticket@.len(),
                m == v.master_account_name.len(),
                v == self@,
                out@.len() == 24 + 2 * m + k,
                forall|j: int| 0 <= j < out@.len() ==> out@[j] == #[trigger] clb_byte(v, j),
            decreases t - k,
        {
            push_u8(&mut out, self.ticket[k]);
            proof {
                assert forall|j: int| 0 <= j < out@.len() implies out@[j] == #[trigger] clb_byte(
                    v,
                    j,
                ) by {
                    if j == 24 + 2 * (m as int) + k {
                        assert(out@[j] == v.ticket[k as int]);
                    }
                }
            }
            k = k + 1;
        }
        proof {
            assert(out@ =~= spec_encode_c_login_arbiter(v));
        }
        Ok(out)
    }
}

/// Scanning a payload of nonzero code units finds the terminator exactly
/// at its end.
proof fn lemma_terminator_scan(s: Seq<u8>, start: int, w: int, m: int)
    requires
        0 <= start,
        0 <= w <= m,
        start + 2 * m + 1 < s.len(),
        forall|x: int| w <= x < m ==> #[trigger] le16(s, start + 2 * x) != 0,
        s[start + 2 * m] == 0,
        s[start + 2 * m + 1] == 0,
    ensures
        find_terminator(s, start + 2 * w) == Some(start + 2 * m),
    decreases m - w,
{
    if w == m {
    } else {
        assert(le16(s, start + 2 * w) != 0);
        lemma_le16_zero(s[start + 2 * w], s[start + 2 * w + 1]);
        lemma_terminator_scan(s, start, w + 1, m);
    }
}

/// Reading the string field of an encoded login-arbiter request yields the
/// account name again.
#[verifier::rlimit(100)]
proof fn lemma_clb_read_str(p: CLoginArbiterView)
    requires
        clb_wf(p),
    ensures
        spec_read_str(spec_encode_c_login_arbiter(p), 0) == Ok::<_, Error>(
            (p.master_account_name, 2int),
        ),
{
    let s = spec_encode_c_login_arbiter(p);
    let m = p.master_account_name.len() as int;
    let t = p.ticket.len() as int;
    assert(s.len() == 24 + 2 * m + t);
    assert(s[0] == le16_bytes(26)[0]);
    assert(s[1] == le16_bytes(26)[1]);
    lemma_le16_recompose(s, 0, 26);
    assert forall|x: int| 0 <= x < m implies #[trigger] le16(s, 22 + 2 * x)
        == p.master_account_name[x] by {
        lemma_div_mod_2(x, 0);
        lemma_div_mod_2(x, 1);
        assert(s[22 + 2 * x] == le16_bytes(p.master_account_name[x])[0]);
        assert(s[22 + 2 * x + 1] == le16_bytes(p.master_account_name[x])[1]);
        lemma_le16_recompose(s, 22 + 2 * x, p.master_account_name[x]);
    }
    assert(s[22 + 2 * m] == 0);
    assert(s[22 + 2 * m + 1] == 0);
    lemma_terminator_scan(s, 22, 0, m);
    assert(find_terminator(s, 22) == Some(22 + 2 * m));
    lemma_div_mod_2(m, 0);
    assert((22 + 2 * m - 22) / 2 == m);
    assert(units_at(s, 22, m) =~= p.master_account_name);
}

/// Reading the byte-buffer field of an encoded login-arbiter request yields
/// the ticket again, at the offset its header declares.
#[verifier::rlimit(100)]
proof fn lemma_clb_read_bytes(p: CLoginArbiterView)
    requires
        clb_wf(p),
    ensures
        spec_read_bytes(spec_encode_c_login_arbiter(p), 2) == Ok::<_, Error>((p.ticket, 6int)),
        le16(spec_encode_c_login_arbiter(p), 2) == 28 + 2 * p.master_account_name.len(),
{
    let s = spec_encode_c_login_arbiter(p);
    let m = p.master_account_name.len() as int;
    let t = p.ticket.len() as int;
    assert(s.len() == 24 + 2 * m + t);
    assert(s[2] == le16_bytes((28 + 2 * m) as u16)[0]);
    assert(s[3] == le16_bytes((28 + 2 * m) as u16)[1]);
    lemma_le16_recompose(s, 2, (28 + 2 * m) as u16);
    assert(s[4] == le16_bytes(t as u16)[0]);
    assert(s[5] == le16_bytes(t as u16)[1]);
    lemma_le16_recompose(s, 4, t as u16);
    assert(s.subrange(24 + 2 * m, 24 + 2 * m + t) =~= p.ticket);
}

/// Decoding an encoded login-arbiter request yields the packet again: the
/// round-trip law of the string-and-buffer packet.
#[verifier::rlimit(100)]
pub proof fn lemma_c_login_arbiter_roundtrip(p: CLoginArbiterView)
    requires
        clb_wf(p),
    ensures
        spec_decode_c_login_arbiter(spec_encode_c_login_arbiter(p)) == Ok::<_, Error>(p),
{
    let s = spec_encode_c_login_arbiter(p);
    let m = p.master_account_name.len() as int;
    let t = p.ticket.len() as int;
    assert(s.len() == 24 + 2 * m + t);
    lemma_clb_read_str(p);
    lemma_clb_read_bytes(p);
    assert(s[6] == le32_bytes(p.unk1)[0]);
    assert(s[7] == le32_bytes(p.unk1)[1]);
    assert(s[8] == le32_bytes(p.unk1)[2]);
    assert(s[9] == le32_bytes(p.unk1)[3]);
    lemma_le32_recompose(s, 6, p.unk1);
    assert(s[10] == le32_bytes(p.unk2)[0]);
    assert(s[11] == le32_bytes(p.unk2)[1]);
    assert(s[12] == le32_bytes(p.unk2)[2]);
    assert(s[13] == le32_bytes(p.unk2)[3]);
    lemma_le32_recompose(s, 10, p.unk2);
    assert(s[14] == le32_bytes(spec_region_code(p.region))[0]);
    assert(s[15] == le32_bytes(spec_region_code(p.region))[1]);
    assert(s[16] == le32_bytes(spec_region_code(p.region))[2]);
    assert(s[17] == le32_bytes(spec_region_code(p.region))[3]);
    lemma_le32_recompose(s, 14, spec_region_code(p.region));
    lemma_region_code_roundtrip(p.region);
    assert(s[18] == le32_bytes(p.patch_version)[0]);
    assert(s[19] == le32_bytes(p.patch_version)[1]);
    assert(s[20] == le32_bytes(p.patch_version)[2]);
    assert(s[21] == le32_bytes(p.patch_version)[3]);
    lemma_le32_recompose(s, 18, p.patch_version);
}

/// The ticket bytes of an encoded login-arbiter request stand at exactly
/// the body position its header's absolute offset declares.
pub proof fn lemma_c_login_arbiter_buffer_at_declared_offset(p: CLoginArbiterView)
    requires
        clb_wf(p),
    ensures
        ({
            let s = spec_encode_c_login_arbiter(p);
            let abs = le16(s, 2) - 4;
            s.subrange(abs, abs + p.ticket.len()) == p.ticket
        }),
{
    let s = spec_encode_c_login_arbiter(p);
    let m = p.master_account_name.len() as int;
    let t = p.ticket.len() as int;
    lemma_clb_read_bytes(p);
    assert(le16(s, 2) - 4 == 24 + 2 * m);
    assert(s.subrange(24 + 2 * m, 24 + 2 * m + t) =~= p.ticket);
}

/// `2 * i + k` splits back into `i` and `k` under division by 2.
proof fn lemma_div_mod_2(i: int, k: int)
    requires
        0 <= k < 2,
        0 <= i,
    ensures
        (2 * i + k) / 2 == i,
        (2 * i + k) % 2 == k,
{
    assert((2 * i + k) / 2 == i && (2 * i + k) % 2 == k) by (nonlinear_arith)
        requires
            0 <= k < 2 && 0 <= i,
    ;
}

} // verus!

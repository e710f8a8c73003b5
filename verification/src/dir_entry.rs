//! The 32-byte directory-entry codec: Short File Name records, Long File
//! Name pieces, and the checksum that binds the two.
//!
//! Everything here is pure: bytes in, typed records out, and back, with the
//! byte image pinned down field by field.

use vstd::prelude::*;

verus! {

/// The attribute value that marks a Long File Name entry.
pub const LFN_ATTR: u8 = 0x0F;

/// Attribute bit: subdirectory.
pub const ATTR_DIRECTORY: u8 = 0x10;

/// Attribute bit: volume label.
pub const ATTR_VOLUME_ID: u8 = 0x08;

/// Attribute bit: archive.
pub const ATTR_ARCHIVE: u8 = 0x20;

/// First name byte of a deleted entry.
pub const DELETED_BYTE: u8 = 0xE5;

/// A decoded Short File Name directory entry. All on-disk fields are kept,
/// so a record survives a decode/encode round trip byte for byte.
pub struct SfnEntry {
    /// The 11-byte 8.3 name, space padded.
    pub name: Vec<u8>,
    /// Attribute byte.
    pub attr: u8,
    /// NT reserved byte (case hints).
    pub nt_res: u8,
    /// Creation time, tenths of a second part.
    pub create_time_tenths: u8,
    /// Creation time (DOS encoding).
    pub create_time: u16,
    /// Creation date (DOS encoding).
    pub create_date: u16,
    /// Last access date (DOS encoding).
    pub access_date: u16,
    /// High word of the first cluster.
    pub first_cluster_hi: u16,
    /// Last write time (DOS encoding).
    pub write_time: u16,
    /// Last write date (DOS encoding).
    pub write_date: u16,
    /// Low word of the first cluster.
    pub first_cluster_lo: u16,
    /// File size in bytes.
    pub size: u32,
}

impl SfnEntry {
    /// The name field holds exactly 11 bytes.
    pub open spec fn wf(&self) -> bool {
        self.name@.len() == 11
    }

    /// The entry's first cluster, both words joined.
    pub open spec fn spec_first_cluster(&self) -> int {
        self.first_cluster_hi as int * 65536 + self.first_cluster_lo as int
    }

    /// The entry's first cluster.
    pub fn first_cluster(&self) -> (r: u32)
        ensures
            r == self.spec_first_cluster(),
    {
        (self.first_cluster_hi as u32) * 65536 + (self.first_cluster_lo as u32)
    }

    /// Store a first cluster, splitting it into the two on-disk words.
    pub fn set_first_cluster(&mut self, c: u32)
        ensures
            final(self).spec_first_cluster() == c,
            final(self).name == old(self).name,
            final(self).attr == old(self).attr,
            final(self).size == old(self).size,
            final(self).nt_res == old(self).nt_res,
            final(self).create_time_tenths == old(self).create_time_tenths,
            final(self).create_time == old(self).create_time,
            final(self).create_date == old(self).create_date,
            final(self).access_date == old(self).access_date,
            final(self).write_time == old(self).write_time,
            final(self).write_date == old(self).write_date,
    {
        self.first_cluster_hi = (c / 65536) as u16;
        self.first_cluster_lo = (c % 65536) as u16;
        proof {
            assert((c as int / 65536) * 65536 + c as int % 65536 == c) by (nonlinear_arith);
        }
    }

    /// Does this entry describe a subdirectory?
    pub fn is_directory(&self) -> (r: bool)
        ensures
            r == (self.attr & ATTR_DIRECTORY != 0),
    {
        self.attr & ATTR_DIRECTORY != 0
    }
}

/// One 32-byte Long File Name piece: an ordinal, the bound SFN's checksum,
/// and 13 UTF-16 units.
pub struct LfnPiece {
    /// Ordinal byte; bit 0x40 marks the final piece of the name.
    pub ordinal: u8,
    /// Checksum of the 11-byte SFN this piece belongs to.
    pub checksum: u8,
    /// The 13 UTF-16 units carried by this piece.
    pub units: Vec<u16>,
}

impl LfnPiece {
    /// The unit buffer holds exactly 13 units.
    pub open spec fn wf(&self) -> bool {
        self.units@.len() == 13
    }
}

/// Byte `i` of the 32-byte image of SFN entry `e` (the on-disk layout).
pub open spec fn spec_sfn_byte(e: SfnEntry, i: int) -> u8 {
    if 0 <= i < 11 {
        e.name@[i]
    } else if i == 11 {
        e.attr
    } else if i == 12 {
        e.nt_res
    } else if i == 13 {
        e.create_time_tenths
    } else if i == 14 {
        (e.create_time as int % 256) as u8
    } else if i == 15 {
        (e.create_time as int / 256) as u8
    } else if i == 16 {
        (e.create_date as int % 256) as u8
    } else if i == 17 {
        (e.create_date as int / 256) as u8
    } else if i == 18 {
        (e.access_date as int % 256) as u8
    } else if i == 19 {
        (e.access_date as int / 256) as u8
    } else if i == 20 {
        (e.first_cluster_hi as int % 256) as u8
    } else if i == 21 {
        (e.first_cluster_hi as int / 256) as u8
    } else if i == 22 {
        (e.write_time as int % 256) as u8
    } else if i == 23 {
        (e.write_time as int / 256) as u8
    } else if i == 24 {
        (e.write_date as int % 256) as u8
    } else if i == 25 {
        (e.write_date as int / 256) as u8
    } else if i == 26 {
        (e.first_cluster_lo as int % 256) as u8
    } else if i == 27 {
        (e.first_cluster_lo as int / 256) as u8
    } else if i == 28 {
        (e.size as int % 256) as u8
    } else if i == 29 {
        (e.size as int / 256 % 256) as u8
    } else if i == 30 {
        (e.size as int / 65536 % 256) as u8
    } else {
        (e.size as int / 16777216) as u8
    }
}

/// The 32-byte image of SFN entry `e`.
pub open spec fn spec_encode_sfn(e: SfnEntry) -> Seq<u8> {
    Seq::new(32, |i: int| spec_sfn_byte(e, i))
}

/// Little-endian 16-bit field at offset `o` of a record.
pub open spec fn spec_rec16(b: Seq<u8>, o: int) -> u16 {
    (b[o] + 256 * b[o + 1]) as u16
}

/// How `spec_decode_sfn`'s result is built field by field.
pub open spec fn spec_decode_sfn_fields(b: Seq<u8>, e: SfnEntry) -> bool {
    &&& e.name@ == b.subrange(0, 11)
    &&& e.attr == b[11]
    &&& e.nt_res == b[12]
    &&& e.create_time_tenths == b[13]
    &&& e.create_time == spec_rec16(b, 14)
    &&& e.create_date == spec_rec16(b, 16)
    &&& e.access_date == spec_rec16(b, 18)
    &&& e.first_cluster_hi == spec_rec16(b, 20)
    &&& e.write_time == spec_rec16(b, 22)
    &&& e.write_date == spec_rec16(b, 24)
    &&& e.first_cluster_lo == spec_rec16(b, 26)
    &&& e.size == b[28] + 256 * b[29] + 65536 * b[30] + 16777216 * b[31]
}

/// Decode a 32-byte record into an SFN entry: every on-disk field is kept.
pub fn decode_sfn(b: &Vec<u8>) -> (e: SfnEntry)
    requires
        b@.len() == 32,
    ensures
        e.wf(),
        spec_decode_sfn_fields(b@, e),
{
    let mut name: Vec<u8> = Vec::new();
    let mut i: usize = 0;
    while i < 11
        invariant
            i <= 11,
            b@.len() == 32,
            name@.len() == i,
            forall|j: int| 0 <= j < i ==> name@[j] == b@[j],
        decreases 11 - i,
    {
        name.push(b[i]);
        i = i + 1;
    }
    proof {
        assert(name@ =~= b@.subrange(0, 11));
    }
    SfnEntry {
        name,
        attr: b[11],
        nt_res: b[12],
        create_time_tenths: b[13],
        create_time: (b[14] as u16) + 256 * (b[15] as u16),
        create_date: (b[16] as u16) + 256 * (b[17] as u16),
        access_date: (b[18] as u16) + 256 * (b[19] as u16),
        first_cluster_hi: (b[20] as u16) + 256 * (b[21] as u16),
        write_time: (b[22] as u16) + 256 * (b[23] as u16),
        write_date: (b[24] as u16) + 256 * (b[25] as u16),
        first_cluster_lo: (b[26] as u16) + 256 * (b[27] as u16),
        size: (b[28] as u32) + 256 * (b[29] as u32) + 65536 * (b[30] as u32)
            + 16777216 * (b[31] as u32),
    }
}

/// Encode an SFN entry into its 32-byte record.
pub fn encode_sfn(e: &SfnEntry) -> (r: Vec<u8>)
    requires
        e.wf(),
    ensures
        r@.len() == 32,
        forall|i: int| 0 <= i < 32 ==> r@[i] == spec_sfn_byte(*e, i),
        r@ == spec_encode_sfn(*e),
{
    let mut r: Vec<u8> = Vec::new();
    let mut i: usize = 0;
    while i < 11
        invariant
            i <= 11,
            e.wf(),
            r@.len() == i,
            forall|j: int| 0 <= j < i ==> r@[j] == e.name@[j],
        decreases 11 - i,
    {
        r.push(e.name[i]);
        i = i + 1;
    }
    r.push(e.attr);
    r.push(e.nt_res);
    r.push(e.create_time_tenths);
    r.push((e.create_time % 256) as u8);
    r.push((e.create_time / 256) as u8);
    r.push((e.create_date % 256) as u8);
    r.push((e.create_date / 256) as u8);
    r.push((e.access_date % 256) as u8);
    r.push((e.access_date / 256) as u8);
    r.push((e.first_cluster_hi % 256) as u8);
    r.push((e.first_cluster_hi / 256) as u8);
    r.push((e.write_time % 256) as u8);
    r.push((e.write_time / 256) as u8);
    r.push((e.write_date % 256) as u8);
    r.push((e.write_date / 256) as u8);
    r.push((e.first_cluster_lo % 256) as u8);
    r.push((e.first_cluster_lo / 256) as u8);
    r.push((e.size % 256) as u8);
    r.push((e.size / 256 % 256) as u8);
    r.push((e.size / 65536 % 256) as u8);
    r.push((e.size / 16777216) as u8);
    proof {
        assert forall|i: int| 0 <= i < 32 implies r@[i] == spec_sfn_byte(*e, i) by {}
        assert(r@ =~= spec_encode_sfn(*e));
    }
    r
}

/// Two bytes survive the little-endian join and split.
proof fn lemma_le16_split(b0: u8, b1: u8)
    ensures
        (b0 + 256 * b1) as int % 256 == b0 as int,
        (b0 + 256 * b1) as int / 256 == b1 as int,
{
    assert((b0 + 256 * b1) as int % 256 == b0 as int
        && (b0 + 256 * b1) as int / 256 == b1 as int) by (nonlinear_arith)
        requires 0 <= b0 < 256, 0 <= b1 < 256;
}

/// Four bytes survive the little-endian join and split.
proof fn lemma_le32_split(b0: u8, b1: u8, b2: u8, b3: u8)
    ensures
        (b0 + 256 * b1 + 65536 * b2 + 16777216 * b3) as int % 256 == b0 as int,
        (b0 + 256 * b1 + 65536 * b2 + 16777216 * b3) as int / 256 % 256 == b1 as int,
        (b0 + 256 * b1 + 65536 * b2 + 16777216 * b3) as int / 65536 % 256 == b2 as int,
        (b0 + 256 * b1 + 65536 * b2 + 16777216 * b3) as int / 16777216 == b3 as int,
{
    let x = b0 + 256 * b1 + 65536 * b2 + 16777216 * b3;
    assert(x as int % 256 == b0 as int && x as int / 256 % 256 == b1 as int
        && x as int / 65536 % 256 == b2 as int && x as int / 16777216 == b3 as int)
        by (nonlinear_arith)
        requires
            x == b0 + 256 * b1 + 65536 * b2 + 16777216 * b3,
            0 <= b0 < 256, 0 <= b1 < 256, 0 <= b2 < 256, 0 <= b3 < 256;
}

/// Round trip: any 32-byte record decoded as an SFN entry re-encodes to the
/// same 32 bytes — no field of the record is lost or altered.
pub proof fn lemma_sfn_roundtrip(b: Seq<u8>, e: SfnEntry)
    requires
        b.len() == 32,
        e.wf(),
        spec_decode_sfn_fields(b, e),
    ensures
        spec_encode_sfn(e) == b,
{
    lemma_le16_split(b[14], b[15]);
    lemma_le16_split(b[16], b[17]);
    lemma_le16_split(b[18], b[19]);
    lemma_le16_split(b[20], b[21]);
    lemma_le16_split(b[22], b[23]);
    lemma_le16_split(b[24], b[25]);
    lemma_le16_split(b[26], b[27]);
    lemma_le32_split(b[28], b[29], b[30], b[31]);
    assert forall|i: int| 0 <= i < 32 implies spec_encode_sfn(e)[i] == b[i] by {
        if 0 <= i < 11 {
            assert(e.name@[i] == b.subrange(0, 11)[i]);
        }
    }
    assert(spec_encode_sfn(e) =~= b);
}

/// The 8-bit rotate-right-and-add checksum over a prefix of the 11-byte SFN.
pub open spec fn spec_sfn_checksum_prefix(name: Seq<u8>, n: int) -> int
    decreases n,
{
    if n <= 0 {
        0
    } else {
        let prev = spec_sfn_checksum_prefix(name, n - 1);
        (prev / 2 + (prev % 2) * 128 + name[n - 1]) % 256
    }
}

/// The SFN checksum stored in every LFN piece of a name.
pub open spec fn spec_sfn_checksum(name: Seq<u8>) -> int {
    spec_sfn_checksum_prefix(name, 11)
}

/// Compute the SFN checksum: rotate the running sum right one bit, then add
/// the next name byte, eleven times.
pub fn sfn_checksum(name: &Vec<u8>) -> (r: u8)
    requires
        name@.len() == 11,
    ensures
        r == spec_sfn_checksum(name@),
{
    let mut sum: u8 = 0;
    let mut i: usize = 0;
    while i < 11
        invariant
            i <= 11,
            name@.len() == 11,
            sum == spec_sfn_checksum_prefix(name@, i as int),
        decreases 11 - i,
    {
        let rot: u8 = sum / 2 + (sum % 2) * 128;
        sum = rot.wrapping_add(name[i]);
        i = i + 1;
    }
    sum
}

/// Is this attribute byte the LFN marker?
pub fn is_lfn(attr: u8) -> (r: bool)
    ensures
        r == (attr == LFN_ATTR),
{
    attr == LFN_ATTR
}

/// Does this record end the directory (first name byte zero)?
pub fn is_end_marker(b: &Vec<u8>) -> (r: bool)
    requires
        b@.len() == 32,
    ensures
        r == (b@[0] == 0),
{
    b[0] == 0
}

/// Is this record a deleted entry (first name byte 0xE5)?
pub fn is_deleted(b: &Vec<u8>) -> (r: bool)
    requires
        b@.len() == 32,
    ensures
        r == (b@[0] == DELETED_BYTE),
{
    b[0] == DELETED_BYTE
}

/// Byte offset, within a 32-byte LFN record, of unit `j`'s low byte. The 13
/// units sit in three runs: five after the ordinal, six after the checksum,
/// two at the record's tail.
pub open spec fn spec_lfn_unit_off(j: int) -> int {
    if j < 5 {
        1 + 2 * j
    } else if j < 11 {
        14 + 2 * (j - 5)
    } else {
        28 + 2 * (j - 11)
    }
}

/// Byte `i` of the 32-byte image of LFN piece `p`.
pub open spec fn spec_lfn_byte(p: LfnPiece, i: int) -> u8 {
    if i == 0 {
        p.ordinal
    } else if i == 11 {
        LFN_ATTR
    } else if i == 12 {
        0u8
    } else if i == 13 {
        p.checksum
    } else if i == 26 || i == 27 {
        0u8
    } else {
        // A unit byte: find its unit and half.
        let j = if i < 11 { (i - 1) / 2 } else if i < 26 { (i - 14) / 2 + 5 } else {
            (i - 28) / 2 + 11
        };
        let lo = if i < 11 { (i - 1) % 2 == 0 } else if i < 26 { (i - 14) % 2 == 0 } else {
            (i - 28) % 2 == 0
        };
        if lo {
            (p.units@[j] as int % 256) as u8
        } else {
            (p.units@[j] as int / 256) as u8
        }
    }
}

/// The 32-byte image of LFN piece `p`.
pub open spec fn spec_encode_lfn(p: LfnPiece) -> Seq<u8> {
    Seq::new(32, |i: int| spec_lfn_byte(p, i))
}

/// Encode an LFN piece: ordinal, thirteen units over their three runs, the
/// LFN attribute, a zero type byte, the checksum, and a zero cluster field.
pub fn encode_lfn(ordinal: u8, units: &Vec<u16>, checksum: u8) -> (r: Vec<u8>)
    requires
        units@.len() == 13,
    ensures
        r@.len() == 32,
        r@ == spec_encode_lfn(LfnPiece { ordinal, checksum, units: *units }),
        r@[0] == ordinal,
        r@[11] == LFN_ATTR,
{
    let mut r: Vec<u8> = Vec::new();
    r.push(ordinal);
    r.push((units[0] % 256) as u8);
    r.push((units[0] / 256) as u8);
    r.push((units[1] % 256) as u8);
    r.push((units[1] / 256) as u8);
    r.push((units[2] % 256) as u8);
    r.push((units[2] / 256) as u8);
    r.push((units[3] % 256) as u8);
    r.push((units[3] / 256) as u8);
    r.push((units[4] % 256) as u8);
    r.push((units[4] / 256) as u8);
    r.push(LFN_ATTR);
    r.push(0u8);
    r.push(checksum);
    r.push((units[5] % 256) as u8);
    r.push((units[5] / 256) as u8);
    r.push((units[6] % 256) as u8);
    r.push((units[6] / 256) as u8);
    r.push((units[7] % 256) as u8);
    r.push((units[7] / 256) as u8);
    r.push((units[8] % 256) as u8);
    r.push((units[8] / 256) as u8);
    r.push((units[9] % 256) as u8);
    r.push((units[9] / 256) as u8);
    r.push((units[10] % 256) as u8);
    r.push((units[10] / 256) as u8);
    r.push(0u8);
    r.push(0u8);
    r.push((units[11] % 256) as u8);
    r.push((units[11] / 256) as u8);
    r.push((units[12] % 256) as u8);
    r.push((units[12] / 256) as u8);
    proof {
        let p = LfnPiece { ordinal, checksum, units: *units };
        assert forall|i: int| 0 <= i < 32 implies r@[i] == spec_lfn_byte(p, i) by {}
        assert(r@ =~= spec_encode_lfn(p));
    }
    r
}

/// Decode a 32-byte LFN record: the ordinal, checksum and all thirteen
/// units are read back exactly.
pub fn decode_lfn(b: &Vec<u8>) -> (p: LfnPiece)
    requires
        b@.len() == 32,
    ensures
        p.wf(),
        p.ordinal == b@[0],
        p.checksum == b@[13],
        forall|j: int| 0 <= j < 13
            ==> #[trigger] p.units@[j] == b@[spec_lfn_unit_off(j)]
                + 256 * b@[spec_lfn_unit_off(j) + 1],
{
    let mut units: Vec<u16> = Vec::new();
    units.push((b[1] as u16) + 256 * (b[2] as u16));
    units.push((b[3] as u16) + 256 * (b[4] as u16));
    units.push((b[5] as u16) + 256 * (b[6] as u16));
    units.push((b[7] as u16) + 256 * (b[8] as u16));
    units.push((b[9] as u16) + 256 * (b[10] as u16));
    units.push((b[14] as u16) + 256 * (b[15] as u16));
    units.push((b[16] as u16) + 256 * (b[17] as u16));
    units.push((b[18] as u16) + 256 * (b[19] as u16));
    units.push((b[20] as u16) + 256 * (b[21] as u16));
    units.push((b[22] as u16) + 256 * (b[23] as u16));
    units.push((b[24] as u16) + 256 * (b[25] as u16));
    units.push((b[28] as u16) + 256 * (b[29] as u16));
    units.push((b[30] as u16) + 256 * (b[31] as u16));
    LfnPiece { ordinal: b[0], checksum: b[13], units }
}

/// An LFN piece survives its encode/decode round trip: decoding the record
/// written by `encode_lfn` yields the ordinal, checksum and units given.
pub proof fn lemma_lfn_roundtrip(p: LfnPiece, q: LfnPiece)
    requires
        p.wf(),
        q.wf(),
        q.ordinal == spec_encode_lfn(p)[0],
        q.checksum == spec_encode_lfn(p)[13],
        forall|j: int| 0 <= j < 13
            ==> #[trigger] q.units@[j] == spec_encode_lfn(p)[spec_lfn_unit_off(j)]
                + 256 * spec_encode_lfn(p)[spec_lfn_unit_off(j) + 1],
    ensures
        q.ordinal == p.ordinal,
        q.checksum == p.checksum,
        q.units@ == p.units@,
{
    assert forall|j: int| 0 <= j < 13 implies q.units@[j] == p.units@[j] by {
        lemma_le16_split((p.units@[j] as int % 256) as u8, (p.units@[j] as int / 256) as u8);
        assert(p.units@[j] as int % 256 + 256 * (p.units@[j] as int / 256) == p.units@[j])
            by (nonlinear_arith);
    }
    assert(q.units@ =~= p.units@);
}

/// Pad a name's UTF-16 units to whole pieces of 13: a lone null terminator,
/// then 0xFFFF fill. A name already on a piece boundary takes no padding.
pub open spec fn spec_lfn_pad(s: Seq<u16>) -> Seq<u16> {
    if s.len() % 13 == 0 {
        s
    } else {
        s + seq![0u16] + Seq::new((12 - s.len() % 13) as nat, |i: int| 0xFFFFu16)
    }
}

/// Strip padding: the units before the first null.
pub open spec fn spec_lfn_unpad(s: Seq<u16>) -> Seq<u16>
    decreases s.len(),
{
    if s.len() == 0 {
        s
    } else if s[0] == 0 {
        Seq::empty()
    } else {
        seq![s[0]] + spec_lfn_unpad(s.skip(1))
    }
}

/// A null-free sequence strips to itself.
proof fn lemma_unpad_id(s: Seq<u16>)
    requires
        forall|i: int| 0 <= i < s.len() ==> s[i] != 0,
    ensures
        spec_lfn_unpad(s) == s,
    decreases s.len(),
{
    if s.len() > 0 {
        lemma_unpad_id(s.skip(1));
        assert(spec_lfn_unpad(s) =~= s);
    } else {
        assert(spec_lfn_unpad(s) =~= s);
    }
}

/// Stripping stops at the first null of the tail.
proof fn lemma_unpad_append(s: Seq<u16>, rest: Seq<u16>)
    requires
        forall|i: int| 0 <= i < s.len() ==> s[i] != 0,
        rest.len() > 0,
        rest[0] == 0,
    ensures
        spec_lfn_unpad(s + rest) == s,
    decreases s.len(),
{
    if s.len() == 0 {
        assert(s + rest =~= rest);
        assert(spec_lfn_unpad(s + rest) =~= s);
    } else {
        assert((s + rest).skip(1) =~= s.skip(1) + rest);
        lemma_unpad_append(s.skip(1), rest);
        assert(spec_lfn_unpad(s + rest) =~= seq![s[0]] + s.skip(1));
        assert(seq![s[0]] + s.skip(1) =~= s);
    }
}

/// Long-name round trip: any null-free name of UTF-16 units, padded to
/// whole pieces and stripped again, comes back unchanged. Together with
/// `lemma_lfn_roundtrip` this pins the full encode/decode cycle of names of
/// up to 255 units.
pub proof fn lemma_lfn_name_roundtrip(s: Seq<u16>)
    requires
        forall|i: int| 0 <= i < s.len() ==> s[i] != 0,
    ensures
        spec_lfn_unpad(spec_lfn_pad(s)) == s,
{
    if s.len() % 13 == 0 {
        lemma_unpad_id(s);
    } else {
        let rest = seq![0u16] + Seq::new((12 - s.len() % 13) as nat, |i: int| 0xFFFFu16);
        assert(s + rest =~= spec_lfn_pad(s));
        lemma_unpad_append(s, rest);
    }
}

/// Pad a name's units to whole 13-unit pieces (executable form).
pub fn lfn_pad_units(name: &Vec<u16>) -> (r: Vec<u16>)
    requires
        name@.len() <= 255,
    ensures
        r@ == spec_lfn_pad(name@),
        r@.len() % 13 == 0,
        r@.len() <= 260,
        name@.len() <= r@.len(),
    {
    let mut r: Vec<u16> = Vec::new();
    let mut i: usize = 0;
    let n = name.len();
    while i < n
        invariant
            i <= n,
            n == name@.len(),
            r@.len() == i,
            r@ == name@.take(i as int),
        decreases n - i,
    {
        let u = name[i];
        r.push(u);
        proof {
            assert(r@ =~= name@.take(i + 1));
        }
        i = i + 1;
    }
    proof {
        assert(r@ =~= name@);
    }
    if n % 13 != 0 {
        r.push(0u16);
        let pad = 12 - (n % 13);
        let mut j: usize = 0;
        while j < pad
            invariant
                j <= pad,
                pad == 12 - (n % 13),
                n % 13 != 0,
                n == name@.len(),
                r@.len() == n + 1 + j,
                r@ == name@ + seq![0u16] + Seq::new(j as nat, |i: int| 0xFFFFu16),
            decreases pad - j,
        {
            r.push(0xFFFFu16);
            proof {
                assert(r@ =~= name@ + seq![0u16]
                    + Seq::new((j + 1) as nat, |i: int| 0xFFFFu16));
            }
            j = j + 1;
        }
        proof {
            assert(r@ =~= spec_lfn_pad(name@));
        }
    }
    r
}

/// Strip LFN padding: keep the units before the first null (executable
/// form).
pub fn lfn_unpad_units(units: &Vec<u16>) -> (r: Vec<u16>)
    ensures
        r@ == spec_lfn_unpad(units@),
    {
    let mut r: Vec<u16> = Vec::new();
    let n = units.len();
    let mut i: usize = 0;
    while i < n
        invariant
            i <= n,
            n == units@.len(),
            r@.len() == i,
            r@ == units@.take(i as int),
            forall|j: int| 0 <= j < i ==> units@[j] != 0,
        decreases n - i,
    {
        let u = units[i];
        if u == 0 {
            proof {
                lemma_unpad_take_zero(units@, i as int);
            }
            return r;
        }
        r.push(u);
        proof {
            assert(r@ =~= units@.take(i + 1));
        }
        i = i + 1;
    }
    proof {
        assert(r@ =~= units@);
        lemma_unpad_id(units@);
    }
    r
}

/// If position `i` holds the first null, stripping yields the first `i`
/// units.
proof fn lemma_unpad_take_zero(s: Seq<u16>, i: int)
    requires
        0 <= i < s.len(),
        s[i] == 0,
        forall|j: int| 0 <= j < i ==> s[j] != 0,
    ensures
        spec_lfn_unpad(s) == s.take(i),
    decreases i,
{
    if i == 0 {
        assert(spec_lfn_unpad(s) =~= s.take(0));
    } else {
        lemma_unpad_take_zero(s.skip(1), i - 1);
        assert(spec_lfn_unpad(s) =~= seq![s[0]] + s.skip(1).take(i - 1));
        assert(seq![s[0]] + s.skip(1).take(i - 1) =~= s.take(i));
    }
}

} // verus!

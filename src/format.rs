use vstd::prelude::*;
use crate::error::SarcError;
use crate::reader::{
    ByteReader, aligned4, be16, be32, read_text_entry, smart_align_4, text_at,
};

verus! {

/// `"SARC"` as a big-endian `u32`.
pub const SARC_MAGIC: u32 = 0x5341_5243;

/// `"SFAT"` as a big-endian `u32`.
pub const SFAT_MAGIC: u32 = 0x5346_4154;

/// `"SFNT"` as a big-endian `u32`.
pub const SFNT_MAGIC: u32 = 0x5346_4E54;

/// The byte order an archive declares. It is recorded only: every field is
/// read big-endian whatever it says.
#[derive(Debug, Clone, Copy, PartialEq, Eq, Structural)]
pub enum ByteOrder {
    Big,
    Little,
}

/// The byte order a marker stands for: `0xFEFF` is big, `0xFFFE` little.
pub open spec fn byte_order_of(v: u16) -> Option<ByteOrder> {
    if v == 0xFEFF {
        Some(ByteOrder::Big)
    } else if v == 0xFFFE {
        Some(ByteOrder::Little)
    } else {
        None
    }
}

/// Maps a byte-order marker to the byte order it names.
pub fn byte_order_from_u16(v: u16) -> (r: Option<ByteOrder>)
    ensures
        r == byte_order_of(v),
{
    if v == 0xFEFF {
        Some(ByteOrder::Big)
    } else if v == 0xFFFE {
        Some(ByteOrder::Little)
    } else {
        None
    }
}

/// Succeeds where the signature read equals the one expected.
pub fn check_magic_number(found: u32, expected: u32) -> (r: Result<(), SarcError>)
    ensures
        found == expected ==> r == Ok::<(), SarcError>(()),
        found != expected ==> r == Err::<(), SarcError>(
            SarcError::MagicMismatch { expected, found },
        ),
{
    if found != expected {
        Err(SarcError::MagicMismatch { expected, found })
    } else {
        Ok(())
    }
}

/// What checking the signature `magic` at `p` gives.
pub open spec fn magic_at(d: Seq<u8>, p: int, magic: u32) -> Result<(), SarcError> {
    if p + 4 > d.len() {
        Err(SarcError::TruncatedInput)
    } else if be32(d, p) != magic {
        Err(SarcError::MagicMismatch { expected: magic, found: be32(d, p) })
    } else {
        Ok(())
    }
}

/// The top-level archive header.
#[derive(Debug, Clone, Copy, PartialEq, Eq, Structural)]
pub struct SARCHeader {
    pub header_length: u16,
    pub bom: ByteOrder,
    pub file_size: u32,
    pub data_offset: u32,
    pub version: u16,
}

/// What decoding an archive header at `p` gives: the header and the
/// position after its two reserved bytes, which are skipped whether or not
/// the data holds them.
pub open spec fn header_at(d: Seq<u8>, p: int) -> Result<(SARCHeader, int), SarcError> {
    match magic_at(d, p, SARC_MAGIC) {
        Err(e) => Err(e),
        Ok(_) => if p + 8 > d.len() {
            Err(SarcError::TruncatedInput)
        } else {
            match byte_order_of(be16(d, p + 6)) {
                None => Err(SarcError::UnrecognizedEnumValue { value: be16(d, p + 6) }),
                Some(bom) => if p + 18 > d.len() {
                    Err(SarcError::TruncatedInput)
                } else {
                    Ok(
                        (
                            SARCHeader {
                                header_length: be16(d, p + 4),
                                bom,
                                file_size: be32(d, p + 8),
                                data_offset: be32(d, p + 12),
                                version: be16(d, p + 16),
                            },
                            p + 20,
                        ),
                    )
                },
            }
        },
    }
}

impl SARCHeader {
    /// Decodes an archive header at the cursor.
    pub fn import(reader: &mut ByteReader) -> (r: Result<SARCHeader, SarcError>)
        requires
            old(reader).wf(),
        ensures
            final(reader).wf(),
            final(reader).data@ == old(reader).data@,
            match header_at(old(reader).data@, old(reader).pos as int) {
                Ok((h, q)) => r == Ok::<SARCHeader, SarcError>(h) && final(reader).pos == q,
                Err(e) => r == Err::<SARCHeader, SarcError>(e),
            },
    {
        let magic_number = reader.read_be_u32()?;
        check_magic_number(magic_number, SARC_MAGIC)?;
        let header_length = reader.read_be_u16()?;
        let bom_val = reader.read_be_u16()?;
        let bom = match byte_order_from_u16(bom_val) {
            Some(b) => b,
            None => {
                return Err(SarcError::UnrecognizedEnumValue { value: bom_val });
            },
        };
        let file_size = reader.read_be_u32()?;
        let data_offset = reader.read_be_u32()?;
        let version = reader.read_be_u16()?;
        reader.skip(2);
        Ok(SARCHeader { header_length, bom, file_size, data_offset, version })
    }
}

/// The header of the file allocation table.
#[derive(Debug, Clone, Copy, PartialEq, Eq, Structural)]
pub struct SFATHeader {
    pub header_length: u16,
    pub node_count: u16,
    pub hash_multiplier: u32,
}

/// What decoding a file-table header at `p` gives, and the position after it.
pub open spec fn sfat_header_at(d: Seq<u8>, p: int) -> Result<(SFATHeader, int), SarcError> {
    match magic_at(d, p, SFAT_MAGIC) {
        Err(e) => Err(e),
        Ok(_) => if p + 12 > d.len() {
            Err(SarcError::TruncatedInput)
        } else {
            Ok(
                (
                    SFATHeader {
                        header_length: be16(d, p + 4),
                        node_count: be16(d, p + 6),
                        hash_multiplier: be32(d, p + 8),
                    },
                    p + 12,
                ),
            )
        },
    }
}

impl SFATHeader {
    /// Decodes a file-table header at the cursor.
    pub fn import(reader: &mut ByteReader) -> (r: Result<SFATHeader, SarcError>)
        requires
            old(reader).wf(),
        ensures
            final(reader).wf(),
            final(reader).data@ == old(reader).data@,
            match sfat_header_at(old(reader).data@, old(reader).pos as int) {
                Ok((h, q)) => r == Ok::<SFATHeader, SarcError>(h) && final(reader).pos == q,
                Err(e) => r == Err::<SFATHeader, SarcError>(e),
            },
    {
        let magic_number = reader.read_be_u32()?;
        check_magic_number(magic_number, SFAT_MAGIC)?;
        let header_length = reader.read_be_u16()?;
        let node_count = reader.read_be_u16()?;
        let hash_multiplier = reader.read_be_u32()?;
        Ok(SFATHeader { header_length, node_count, hash_multiplier })
    }
}

/// One entry of the file allocation table. The data range is relative to the
/// archive's data offset; the hash and attributes are carried, not read.
#[derive(Debug, Clone, Copy, PartialEq, Eq, Structural)]
pub struct SFATNode {
    pub file_name_hash: u32,
    pub file_attributes: u32,
    pub data_start_offset: u32,
    pub data_end_offset: u32,
}

/// The 16-byte node stored at `p`.
pub open spec fn node_at(d: Seq<u8>, p: int) -> SFATNode {
    SFATNode {
        file_name_hash: be32(d, p),
        file_attributes: be32(d, p + 4),
        data_start_offset: be32(d, p + 8),
        data_end_offset: be32(d, p + 12),
    }
}

impl SFATNode {
    /// Decodes one 16-byte node at the cursor.
    pub fn import(reader: &mut ByteReader) -> (r: Result<SFATNode, SarcError>)
        requires
            old(reader).wf(),
        ensures
            final(reader).wf(),
            final(reader).data@ == old(reader).data@,
            old(reader).pos + 16 <= old(reader).data.len() ==> r == Ok::<SFATNode, SarcError>(
                node_at(old(reader).data@, old(reader).pos as int),
            ) && final(reader).pos == old(reader).pos + 16,
            old(reader).pos + 16 > old(reader).data.len() ==> r == Err::<SFATNode, SarcError>(
                SarcError::TruncatedInput,
            ),
    {
        if !reader.has(16) {
            return Err(SarcError::TruncatedInput);
        }
        let file_name_hash = reader.read_be_u32()?;
        let file_attributes = reader.read_be_u32()?;
        let data_start_offset = reader.read_be_u32()?;
        let data_end_offset = reader.read_be_u32()?;
        Ok(SFATNode { file_name_hash, file_attributes, data_start_offset, data_end_offset })
    }
}

/// The file allocation table: its header and its nodes in file order.
pub struct SFAT {
    pub header: SFATHeader,
    pub nodes: Vec<SFATNode>,
}

/// What decoding a file table at `p` gives: header, nodes, and the position
/// after the last node.
pub open spec fn sfat_at(d: Seq<u8>, p: int) -> Result<(SFATHeader, Seq<SFATNode>, int), SarcError> {
    match sfat_header_at(d, p) {
        Err(e) => Err(e),
        Ok((h, q)) => if q + 16 * h.node_count > d.len() {
            Err(SarcError::TruncatedInput)
        } else {
            Ok(
                (
                    h,
                    Seq::new(h.node_count as nat, |i: int| node_at(d, q + 16 * i)),
                    q + 16 * h.node_count,
                ),
            )
        },
    }
}

impl SFAT {
    /// Decodes a file table, header and nodes, at the cursor.
    pub fn import(reader: &mut ByteReader) -> (r: Result<SFAT, SarcError>)
        requires
            old(reader).wf(),
        ensures
            final(reader).wf(),
            final(reader).data@ == old(reader).data@,
            match sfat_at(old(reader).data@, old(reader).pos as int) {
                Ok((h, ns, q)) => r matches Ok(t) && t.header == h && t.nodes@ == ns
                    && final(reader).pos == q,
                Err(e) => r == Err::<SFAT, SarcError>(e),
            },
    {
        let header = SFATHeader::import(reader)?;
        let ghost q0 = reader.pos as int;
        let count = header.node_count as usize;
        let mut nodes: Vec<SFATNode> = Vec::with_capacity(count);
        while nodes.len() < count
            invariant
                reader.wf(),
                reader.data@ == old(reader).data@,
                count == header.node_count,
                sfat_header_at(reader.data@, old(reader).pos as int) == Ok::<
                    (SFATHeader, int),
                    SarcError,
                >((header, q0)),
                nodes.len() <= count,
                reader.pos <= reader.data.len(),
                reader.pos == q0 + 16 * nodes.len(),
                forall|k: int|
                    0 <= k < nodes.len() ==> nodes@[k] == node_at(reader.data@, q0 + 16 * k),
            decreases count - nodes.len(),
        {
            let node = SFATNode::import(reader)?;
            nodes.push(node);
        }
        proof {
            assert(nodes@ == Seq::new(
                header.node_count as nat,
                |i: int| node_at(reader.data@, q0 + 16 * i),
            ));
        }
        Ok(SFAT { header, nodes })
    }
}

/// The header of the name table.
#[derive(Debug, Clone, Copy, PartialEq, Eq, Structural)]
pub struct SFNTHeader {
    pub header_length: u16,
}

/// What decoding a name-table header at `p` gives, and the position after it.
pub open spec fn sfnt_header_at(d: Seq<u8>, p: int) -> Result<(SFNTHeader, int), SarcError> {
    match magic_at(d, p, SFNT_MAGIC) {
        Err(e) => Err(e),
        Ok(_) => if p + 6 > d.len() {
            Err(SarcError::TruncatedInput)
        } else {
            Ok((SFNTHeader { header_length: be16(d, p + 4) }, p + 6))
        },
    }
}

impl SFNTHeader {
    /// Decodes a name-table header at the cursor.
    pub fn import(reader: &mut ByteReader) -> (r: Result<SFNTHeader, SarcError>)
        requires
            old(reader).wf(),
        ensures
            final(reader).wf(),
            final(reader).data@ == old(reader).data@,
            match sfnt_header_at(old(reader).data@, old(reader).pos as int) {
                Ok((h, q)) => r == Ok::<SFNTHeader, SarcError>(h) && final(reader).pos == q,
                Err(e) => r == Err::<SFNTHeader, SarcError>(e),
            },
    {
        let magic_number = reader.read_be_u32()?;
        check_magic_number(magic_number, SFNT_MAGIC)?;
        let header_length = reader.read_be_u16()?;
        Ok(SFNTHeader { header_length })
    }
}

/// What reading `k` names from `q` gives: each one is read at the next
/// multiple of four after the end of the one before it.
pub open spec fn names_at(d: Seq<u8>, q: int, k: nat) -> Result<(Seq<Seq<char>>, int), SarcError>
    decreases k,
{
    if k == 0 {
        Ok((Seq::empty(), q))
    } else {
        match names_at(d, q, (k - 1) as nat) {
            Err(e) => Err(e),
            Ok((ns, q1)) => match text_at(d, aligned4(q1)) {
                Err(e) => Err(e),
                Ok((s, q2)) => Ok((ns.push(s), q2)),
            },
        }
    }
}

/// Once reading names has failed, reading more of them fails the same way.
pub proof fn lemma_names_error_persists(d: Seq<u8>, q: int, k: nat, m: nat)
    requires
        names_at(d, q, k) is Err,
        k <= m,
    ensures
        names_at(d, q, m) == names_at(d, q, k),
    decreases m - k,
{
    if k < m {
        lemma_names_error_persists(d, q, k, (m - 1) as nat);
    }
}

/// The name table: its header and one name per node, in node order.
pub struct SFNT {
    pub header: SFNTHeader,
    pub file_names: Vec<String>,
}

/// The names of a table as text.
pub open spec fn names_view(v: Seq<String>) -> Seq<Seq<char>> {
    v.map_values(|s: String| s@)
}

/// What decoding a name table of `count` names at `p` gives.
pub open spec fn sfnt_at(d: Seq<u8>, p: int, count: nat) -> Result<(SFNTHeader, Seq<Seq<char>>, int), SarcError> {
    match sfnt_header_at(d, p) {
        Err(e) => Err(e),
        Ok((h, q)) => match names_at(d, q, count) {
            Err(e) => Err(e),
            Ok((ns, q2)) => Ok((h, ns, q2)),
        },
    }
}

impl SFNT {
    /// Decodes a name table holding `count` names at the cursor.
    pub fn import(reader: &mut ByteReader, count: u16) -> (r: Result<SFNT, SarcError>)
        requires
            old(reader).wf(),
        ensures
            final(reader).wf(),
            final(reader).data@ == old(reader).data@,
            match sfnt_at(old(reader).data@, old(reader).pos as int, count as nat) {
                Ok((h, ns, q)) => r matches Ok(t) && t.header == h && names_view(t.file_names@)
                    == ns && final(reader).pos == q,
                Err(e) => r == Err::<SFNT, SarcError>(e),
            },
    {
        let header = SFNTHeader::import(reader)?;
        let ghost q0 = reader.pos as int;
        let ghost d = reader.data@;
        let mut file_names: Vec<String> = Vec::with_capacity(count as usize);
        proof {
            assert(names_view(file_names@) =~= Seq::<Seq<char>>::empty());
        }
        while file_names.len() < count as usize
            invariant
                reader.wf(),
                reader.pos <= d.len(),
                reader.data@ == d,
                d == old(reader).data@,
                sfnt_header_at(d, old(reader).pos as int) == Ok::<(SFNTHeader, int), SarcError>(
                    (header, q0),
                ),
                file_names.len() <= count,
                names_at(d, q0, file_names.len() as nat) == Ok::<
                    (Seq<Seq<char>>, int),
                    SarcError,
                >((names_view(file_names@), reader.pos as int)),
            decreases count - file_names.len(),
        {
            let ghost i = file_names.len() as nat;
            smart_align_4(reader);
            match read_text_entry(reader) {
                Ok(name) => {
                    let ghost before = file_names@;
                    file_names.push(name);
                    proof {
                        assert(names_view(file_names@) =~= names_view(before).push(name@));
                    }
                },
                Err(e) => {
                    proof {
                        lemma_names_error_persists(d, q0, i + 1, count as nat);
                    }
                    return Err(e);
                },
            }
        }
        Ok(SFNT { header, file_names })
    }
}

} // verus!

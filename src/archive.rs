use vstd::prelude::*;
use vstd::slice::{slice_subrange, slice_to_vec};
use crate::error::SarcError;
use crate::format::{
    SARCHeader, SFAT, SFATHeader, SFATNode, SFNT, SFNTHeader, header_at, names_view, sfat_at,
    sfnt_at,
};
use crate::reader::ByteReader;

verus! {

/// What an archive decodes to, section by section.
pub struct ArchiveModel {
    pub header: SARCHeader,
    pub file_table: SFATHeader,
    pub nodes: Seq<SFATNode>,
    pub name_table: SFNTHeader,
    pub names: Seq<Seq<char>>,
}

/// What decoding an archive at `p` gives: header, file table and name table
/// in that order, the first failure ending it; and the position after it.
pub open spec fn archive_at(d: Seq<u8>, p: int) -> Result<(ArchiveModel, int), SarcError> {
    match header_at(d, p) {
        Err(e) => Err(e),
        Ok((h, q1)) => match sfat_at(d, q1) {
            Err(e) => Err(e),
            Ok((fh, nodes, q2)) => match sfnt_at(d, q2, fh.node_count as nat) {
                Err(e) => Err(e),
                Ok((nh, names, q3)) => Ok(
                    (
                        ArchiveModel {
                            header: h,
                            file_table: fh,
                            nodes,
                            name_table: nh,
                            names,
                        },
                        q3,
                    ),
                ),
            },
        },
    }
}

/// Whether a node's data range lies in `len` bytes once it is placed at
/// `offset`.
pub open spec fn range_fits(len: int, offset: u32, n: SFATNode) -> bool {
    n.data_start_offset <= n.data_end_offset && offset + n.data_end_offset <= len
}

/// The bytes of a node's data range placed at `offset`.
pub open spec fn node_bytes(d: Seq<u8>, offset: u32, n: SFATNode) -> Seq<u8> {
    d.subrange(offset + n.data_start_offset, offset + n.data_end_offset)
}

/// What extracting the files gives: a name and the bytes of its range for
/// each node, when the tables agree in length and every range fits.
pub open spec fn extracted(
    d: Seq<u8>,
    offset: u32,
    nodes: Seq<SFATNode>,
    names: Seq<Seq<char>>,
) -> Result<Seq<(Seq<char>, Seq<u8>)>, SarcError> {
    if nodes.len() != names.len() {
        Err(
            SarcError::NodeNameCountMismatch {
                node_count: nodes.len() as usize,
                name_count: names.len() as usize,
            },
        )
    } else if exists|i: int| 0 <= i < nodes.len() && !range_fits(d.len() as int, offset, nodes[i]) {
        Err(SarcError::TruncatedInput)
    } else {
        Ok(Seq::new(nodes.len(), |i: int| (names[i], node_bytes(d, offset, nodes[i]))))
    }
}

/// Whether `d` starts with the four bytes `"Yaz0"`, the signature of a
/// compressed archive.
pub open spec fn starts_with_yaz0(d: Seq<u8>) -> bool {
    d.len() >= 4 && d[0] == 0x59 && d[1] == 0x61 && d[2] == 0x7A && d[3] == 0x30
}

/// Tells a Yaz0-compressed input from a plain one by its first four bytes.
pub fn is_yaz0(data: &[u8]) -> (r: bool)
    ensures
        r == starts_with_yaz0(data@),
{
    data.len() >= 4 && data[0] == 0x59 && data[1] == 0x61 && data[2] == 0x7A && data[3] == 0x30
}

/// A decoded archive.
pub struct SARC {
    pub header: SARCHeader,
    pub file_table: SFAT,
    pub name_table: SFNT,
}

/// One file taken out of an archive.
pub struct SARCOutputFile {
    pub name: String,
    pub data: Vec<u8>,
}

/// A list of files as names and contents.
pub open spec fn files_view(v: Seq<SARCOutputFile>) -> Seq<(Seq<char>, Seq<u8>)> {
    v.map_values(|f: SARCOutputFile| (f.name@, f.data@))
}

impl SARC {
    /// What this archive decodes to.
    pub open spec fn model(&self) -> ArchiveModel {
        ArchiveModel {
            header: self.header,
            file_table: self.file_table.header,
            nodes: self.file_table.nodes@,
            name_table: self.name_table.header,
            names: names_view(self.name_table.file_names@),
        }
    }

    /// Decodes an archive at the cursor. The name table is read with the
    /// node count of the file table; that the two agree is left to
    /// extraction.
    pub fn import(reader: &mut ByteReader) -> (r: Result<SARC, SarcError>)
        requires
            old(reader).wf(),
        ensures
            final(reader).wf(),
            final(reader).data@ == old(reader).data@,
            match archive_at(old(reader).data@, old(reader).pos as int) {
                Ok((m, q)) => r matches Ok(s) && s.model() == m && final(reader).pos == q,
                Err(e) => r == Err::<SARC, SarcError>(e),
            },
    {
        let header = SARCHeader::import(reader)?;
        let file_table = SFAT::import(reader)?;
        let name_table = SFNT::import(reader, file_table.header.node_count)?;
        Ok(SARC { header, file_table, name_table })
    }

    /// Takes every file out of the archive: node `i`'s range, placed at the
    /// data offset, read from `reader`'s data and paired with name `i`.
    /// Nothing is returned unless every file can be.
    pub fn get_files(&self, reader: &ByteReader) -> (r: Result<Vec<SARCOutputFile>, SarcError>)
        ensures
            match extracted(
                reader.data@,
                self.header.data_offset,
                self.file_table.nodes@,
                names_view(self.name_table.file_names@),
            ) {
                Ok(fs) => r matches Ok(v) && files_view(v@) == fs,
                Err(e) => r == Err::<Vec<SARCOutputFile>, SarcError>(e),
            },
    {
        let nodes = &self.file_table.nodes;
        let names = &self.name_table.file_names;
        let ghost nv = names_view(names@);
        if nodes.len() != names.len() {
            return Err(
                SarcError::NodeNameCountMismatch { node_count: nodes.len(), name_count: names.len() },
            );
        }
        let data = reader.data.as_slice();
        let offset = self.header.data_offset;
        let mut out: Vec<SARCOutputFile> = Vec::new();
        let mut i: usize = 0;
        while i < nodes.len()
            invariant
                nodes.len() == names.len(),
                nv == names_view(names@),
                data@ == reader.data@,
                offset == self.header.data_offset,
                nodes@ == self.file_table.nodes@,
                nv == names_view(self.name_table.file_names@),
                i <= nodes.len(),
                out.len() == i,
                forall|k: int| 0 <= k < i ==> range_fits(data@.len() as int, offset, nodes@[k]),
                forall|k: int|
                    0 <= k < i ==> (#[trigger] files_view(out@)[k]) == (
                        nv[k],
                        node_bytes(data@, offset, nodes@[k]),
                    ),
            decreases nodes.len() - i,
        {
            let node = nodes[i];
            let start: u64 = offset as u64 + node.data_start_offset as u64;
            let end: u64 = offset as u64 + node.data_end_offset as u64;
            if node.data_start_offset > node.data_end_offset || end > data.len() as u64 {
                proof {
                    assert(!range_fits(data@.len() as int, offset, nodes@[i as int]));
                }
                return Err(SarcError::TruncatedInput);
            }
            let bytes = slice_to_vec(slice_subrange(data, start as usize, end as usize));
            let name = names[i].clone();
            let ghost before = out@;
            out.push(SARCOutputFile { name, data: bytes });
            proof {
                let entry = (nv[i as int], node_bytes(data@, offset, nodes@[i as int]));
                assert(files_view(out@) =~= files_view(before).push(entry));
            }
            i = i + 1;
        }
        proof {
            assert(files_view(out@) =~= Seq::new(
                nodes@.len(),
                |k: int| (nv[k], node_bytes(data@, offset, nodes@[k])),
            ));
        }
        Ok(out)
    }
}

} // verus!

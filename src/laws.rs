use vstd::prelude::*;
use crate::archive::{ArchiveModel, archive_at, extracted, range_fits};
use crate::error::SarcError;
use crate::format::{
    SARCHeader, SARC_MAGIC, SFATHeader, SFATNode, SFAT_MAGIC, SFNTHeader, SFNT_MAGIC, header_at,
    names_at, sfat_at, sfat_header_at, sfnt_at, sfnt_header_at,
};
use crate::reader::{aligned4, be32, text_at};

verus! {

/// Reading `k` names, when it succeeds, gives exactly `k` names.
pub proof fn lemma_names_count(d: Seq<u8>, q: int, k: nat)
    requires
        names_at(d, q, k) is Ok,
    ensures
        names_at(d, q, k)->Ok_0.0.len() == k,
    decreases k,
{
    if k > 0 {
        lemma_names_count(d, q, (k - 1) as nat);
    }
}

/// A decoded archive has one node and one name for each entry its file
/// table counts.
pub proof fn lemma_archive_counts(d: Seq<u8>, p: int)
    requires
        archive_at(d, p) is Ok,
    ensures
        ({
            let m = archive_at(d, p)->Ok_0.0;
            m.nodes.len() == m.file_table.node_count && m.names.len() == m.file_table.node_count
        }),
{
    let (h, q1) = header_at(d, p)->Ok_0;
    let (fh, nodes, q2) = sfat_at(d, q1)->Ok_0;
    let (nh, q3) = sfnt_header_at(d, q2)->Ok_0;
    lemma_names_count(d, q3, fh.node_count as nat);
}

/// Extracting a decoded archive whose ranges all fit gives one entry per
/// node, in order, with the name of the same index and as many bytes as the
/// node's range is long.
pub proof fn lemma_extract_names_and_lengths(d: Seq<u8>, p: int)
    requires
        archive_at(d, p) is Ok,
        forall|i: int|
            0 <= i < archive_at(d, p)->Ok_0.0.nodes.len() ==> range_fits(
                d.len() as int,
                archive_at(d, p)->Ok_0.0.header.data_offset,
                #[trigger] archive_at(d, p)->Ok_0.0.nodes[i],
            ),
    ensures
        ({
            let m = archive_at(d, p)->Ok_0.0;
            let r = extracted(d, m.header.data_offset, m.nodes, m.names);
            &&& r is Ok
            &&& r->Ok_0.len() == m.nodes.len()
            &&& forall|i: int|
                    0 <= i < m.nodes.len() ==> {
                    &&& (#[trigger] r->Ok_0[i]).0 == m.names[i]
                    &&& r->Ok_0[i].1.len() == m.nodes[i].data_end_offset
                        - m.nodes[i].data_start_offset
                }
        }),
{
    lemma_archive_counts(d, p);
}

/// When the tables agree and every range fits, entry `i` holds exactly the
/// bytes `[offset + start_i, offset + end_i)` of the input.
pub proof fn lemma_extract_exact_slices(
    d: Seq<u8>,
    offset: u32,
    nodes: Seq<SFATNode>,
    names: Seq<Seq<char>>,
)
    requires
        nodes.len() == names.len(),
        forall|i: int| 0 <= i < nodes.len() ==> range_fits(d.len() as int, offset, #[trigger] nodes[i]),
    ensures
        extracted(d, offset, nodes, names) is Ok,
        forall|i: int|
            0 <= i < nodes.len() ==> (#[trigger] extracted(d, offset, nodes, names)->Ok_0[i]).1
                == d.subrange(
                offset + nodes[i].data_start_offset,
                offset + nodes[i].data_end_offset,
            ),
{
}

/// Each of the three decoders rejects, on its own, any four bytes other than
/// its signature, the signature of another section included.
pub proof fn lemma_magic_rejected(d: Seq<u8>, p: int)
    requires
        p + 4 <= d.len(),
    ensures
        be32(d, p) != SARC_MAGIC ==> header_at(d, p) == Err::<(SARCHeader, int), SarcError>(
            SarcError::MagicMismatch { expected: SARC_MAGIC, found: be32(d, p) },
        ),
        be32(d, p) != SFAT_MAGIC ==> sfat_at(d, p) == Err::<
            (SFATHeader, Seq<SFATNode>, int),
            SarcError,
        >(SarcError::MagicMismatch { expected: SFAT_MAGIC, found: be32(d, p) }),
        forall|count: nat|
            be32(d, p) != SFNT_MAGIC ==> #[trigger] sfnt_at(d, p, count) == Err::<
                (SFNTHeader, Seq<Seq<char>>, int),
                SarcError,
            >(SarcError::MagicMismatch { expected: SFNT_MAGIC, found: be32(d, p) }),
        be32(d, p) == SFAT_MAGIC ==> header_at(d, p) is Err,
        be32(d, p) == SARC_MAGIC ==> sfat_header_at(d, p) is Err,
{
}

/// Comparing signatures as big-endian `u32` values is comparing their four
/// ASCII bytes: `"SARC"`, `"SFAT"` and `"SFNT"`.
pub proof fn lemma_signature_bytes(d: Seq<u8>, p: int)
    requires
        0 <= p,
        p + 4 <= d.len(),
    ensures
        be32(d, p) == SARC_MAGIC <==> d.subrange(p, p + 4) == seq![0x53u8, 0x41u8, 0x52u8, 0x43u8],
        be32(d, p) == SFAT_MAGIC <==> d.subrange(p, p + 4) == seq![0x53u8, 0x46u8, 0x41u8, 0x54u8],
        be32(d, p) == SFNT_MAGIC <==> d.subrange(p, p + 4) == seq![0x53u8, 0x46u8, 0x4Eu8, 0x54u8],
{
    let s = d.subrange(p, p + 4);
    assert(s[0] == d[p] && s[1] == d[p + 1] && s[2] == d[p + 2] && s[3] == d[p + 3]);
    let sarc = seq![0x53u8, 0x41u8, 0x52u8, 0x43u8];
    let sfat = seq![0x53u8, 0x46u8, 0x41u8, 0x54u8];
    let sfnt = seq![0x53u8, 0x46u8, 0x4Eu8, 0x54u8];
    if s =~= sarc {
    }
    if s =~= sfat {
    }
    if s =~= sfnt {
    }
}

/// Aligning moves a cursor on to the next multiple of four, by
/// `4 - q % 4` bytes, and leaves an aligned cursor where it is.
pub proof fn lemma_alignment(q: int)
    requires
        0 <= q,
    ensures
        aligned4(q) % 4 == 0,
        q <= aligned4(q) < q + 4,
        q % 4 == 0 ==> aligned4(q) == q,
        q % 4 != 0 ==> aligned4(q) == q + (4 - q % 4),
        aligned4(q) == (q + 3) / 4 * 4,
{
}

/// Where the name of index `i` in a table whose names start at `q` is read:
/// at the next multiple of four after the end of the name before it.
pub open spec fn name_start(d: Seq<u8>, q: int, i: nat) -> int {
    aligned4(names_at(d, q, i)->Ok_0.1)
}

/// In a name table that decodes, every name is the NUL-terminated text read
/// at a multiple of four: the first at or after `q`, each later one at or
/// after the end of the one before it.
pub proof fn lemma_names_aligned(d: Seq<u8>, q: int, k: nat)
    requires
        names_at(d, q, k) is Ok,
    ensures
        forall|i: nat|
            i < k ==> {
                &&& names_at(d, q, i) is Ok
                &&& #[trigger] name_start(d, q, i) % 4 == 0
                &&& names_at(d, q, i)->Ok_0.1 <= name_start(d, q, i)
                    < names_at(d, q, i)->Ok_0.1 + 4
                &&& text_at(d, name_start(d, q, i)) == Ok::<(Seq<char>, int), SarcError>(
                    (names_at(d, q, k)->Ok_0.0[i as int], names_at(d, q, (i + 1) as nat)->Ok_0.1),
                )
            },
    decreases k,
{
    if k > 0 {
        let km = (k - 1) as nat;
        lemma_names_aligned(d, q, km);
        lemma_names_count(d, q, km);
        assert forall|i: nat| i < k implies {
            &&& names_at(d, q, i) is Ok
            &&& #[trigger] name_start(d, q, i) % 4 == 0
            &&& names_at(d, q, i)->Ok_0.1 <= name_start(d, q, i) < names_at(d, q, i)->Ok_0.1 + 4
            &&& text_at(d, name_start(d, q, i)) == Ok::<(Seq<char>, int), SarcError>(
                (names_at(d, q, k)->Ok_0.0[i as int], names_at(d, q, (i + 1) as nat)->Ok_0.1),
            )
        } by {
            if i < km {
                assert(name_start(d, q, i) % 4 == 0);
            }
        }
    }
}

/// Decoding a whole archive checks the three signatures at their own places,
/// each on its own: the header's at `p`, the file table's right after the
/// 20-byte header, the name table's right after the file table's 12-byte
/// header and its 16-byte nodes. Whichever one is wrong, the archive is
/// rejected with that signature and the four bytes found.
pub proof fn lemma_archive_magic_stages(d: Seq<u8>, p: int)
    ensures
        p + 4 <= d.len() && be32(d, p) != SARC_MAGIC ==> archive_at(d, p) == Err::<
            (ArchiveModel, int),
            SarcError,
        >(SarcError::MagicMismatch { expected: SARC_MAGIC, found: be32(d, p) }),
        header_at(d, p) is Ok ==> header_at(d, p)->Ok_0.1 == p + 20,
        header_at(d, p) is Ok && p + 24 <= d.len() && be32(d, p + 20) != SFAT_MAGIC
            ==> archive_at(d, p) == Err::<(ArchiveModel, int), SarcError>(
            SarcError::MagicMismatch { expected: SFAT_MAGIC, found: be32(d, p + 20) },
        ),
        header_at(d, p) is Ok && sfat_at(d, p + 20) is Ok ==> sfat_at(d, p + 20)->Ok_0.2 == p + 32
            + 16 * sfat_at(d, p + 20)->Ok_0.0.node_count,
        ({
            let q = sfat_at(d, p + 20)->Ok_0.2;
            header_at(d, p) is Ok && sfat_at(d, p + 20) is Ok && q + 4 <= d.len() && be32(d, q)
                != SFNT_MAGIC ==> archive_at(d, p) == Err::<(ArchiveModel, int), SarcError>(
                SarcError::MagicMismatch { expected: SFNT_MAGIC, found: be32(d, q) },
            )
        }),
{
}

/// When the two tables differ in length, extraction fails with both counts
/// and gives no entries.
pub proof fn lemma_count_mismatch(
    d: Seq<u8>,
    offset: u32,
    nodes: Seq<SFATNode>,
    names: Seq<Seq<char>>,
)
    requires
        nodes.len() != names.len(),
    ensures
        extracted(d, offset, nodes, names) == Err::<Seq<(Seq<char>, Seq<u8>)>, SarcError>(
            SarcError::NodeNameCountMismatch {
                node_count: nodes.len() as usize,
                name_count: names.len() as usize,
            },
        ),
{
}

/// An archive whose file table counts no nodes decodes, and extracting it
/// gives an empty list.
pub proof fn lemma_empty_archive(d: Seq<u8>, p: int)
    requires
        archive_at(d, p) is Ok,
        archive_at(d, p)->Ok_0.0.file_table.node_count == 0,
    ensures
        ({
            let m = archive_at(d, p)->Ok_0.0;
            &&& m.nodes.len() == 0
            &&& m.names.len() == 0
            &&& extracted(d, m.header.data_offset, m.nodes, m.names) == Ok::<
                Seq<(Seq<char>, Seq<u8>)>,
                SarcError,
            >(Seq::empty())
        }),
{
    lemma_archive_counts(d, p);
    let m = archive_at(d, p)->Ok_0.0;
    let r = extracted(d, m.header.data_offset, m.nodes, m.names);
    assert(r->Ok_0 =~= Seq::<(Seq<char>, Seq<u8>)>::empty());
}

} // verus!

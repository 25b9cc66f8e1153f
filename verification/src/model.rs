//! An archive in the making as plain values, and what keeps it well formed.

use vstd::prelude::*;
use crate::codec::crc32_checksum;
use crate::constants::FLAG_DATA_DESCRIPTOR;
use crate::constants::MAX_COMMENT_LENGTH;
use crate::layout::entries_bytes;
use crate::layout::entry_bytes;
use crate::layout::entry_flags;
use crate::layout::has_flag;
use crate::types::EntryView;

verus! {

/// An archive in the making as plain values: the records of its entries, the
/// bytes that stand in the archive for each entry's payload, the payloads as
/// they were given, and the comment. Of an entry that came with its payload
/// already encoded, the payload as it was before is not known.
pub struct ArchiveView {
    pub entries: Seq<EntryView>,
    pub payloads: Seq<Seq<u8>>,
    pub sources: Seq<Option<Seq<u8>>>,
    pub comment: Seq<u8>,
}

/// What the record of an entry says of the payload `source` that the library
/// encoded itself to the bytes `payload`: its CRC-32, its length as far as 32
/// bits hold it, and a compressor, never an unknown one, that makes `payload` of
/// it.
pub open spec fn describes(entry: EntryView, payload: Seq<u8>, source: Seq<u8>) -> bool {
    &&& !(entry.compressor is Unknown)
    &&& entry.crc32 == crc32_checksum(source)
    &&& entry.uncompressed_size == source.len() as u32
    &&& exists|level: Option<i32>| payload == #[trigger] entry.compressor.spec_encode(source, level)
}

/// What a record must say of its entry, whose payload stands in the archive as
/// the bytes `payload` and whose header starts `start` bytes into the archive.
/// Offset and sizes are stored in 32 bits, the length of the name in 16.
pub open spec fn recorded(
    entry: EntryView,
    payload: Seq<u8>,
    source: Option<Seq<u8>>,
    start: nat,
) -> bool {
    &&& entry.offset == start as u32
    &&& source matches Some(given) ==> describes(entry, payload, given)
    &&& entry.compressed_size == payload.len() as u32
    &&& entry.name_len == entry.name.len() as u16
    &&& entry.extra_field_length == 0
    &&& entry.version_needed == entry.compressor.spec_version_needed()
    &&& entry.compression_method == entry.compressor.spec_compression_method()
    &&& entry.permissions <= 0o777
    &&& exists|deferred: bool, multibyte_name: bool|
        entry.flags == entry_flags(deferred, multibyte_name)
}

impl ArchiveView {
    /// The bytes of all entries, one entry after another.
    pub open spec fn bytes(self) -> Seq<u8> {
        entries_bytes(self.entries, self.payloads)
    }

    /// The number of bytes that precede the header of entry `index`.
    pub open spec fn start_of(self, index: int) -> nat {
        entries_bytes(self.entries.take(index), self.payloads.take(index)).len()
    }

    /// The record of entry `index` agrees with where the entry stands and with
    /// what its payload takes.
    pub open spec fn recorded_at(self, index: int) -> bool {
        recorded(
            self.entries[index],
            self.payloads[index],
            self.sources[index],
            self.start_of(index),
        )
    }

    /// Every entry has a payload and a record that agrees with it, and the
    /// comment fits the 16 bits of its length field.
    pub open spec fn wf(self) -> bool {
        &&& self.payloads.len() == self.entries.len()
        &&& self.sources.len() == self.entries.len()
        &&& self.comment.len() <= MAX_COMMENT_LENGTH
        &&& forall|index: int|
            0 <= index < self.entries.len() ==> #[trigger] self.recorded_at(index)
    }

    /// The archive with one more entry, whose payload stands in the archive as
    /// the bytes `payload`.
    pub open spec fn push(
        self,
        entry: EntryView,
        payload: Seq<u8>,
        source: Option<Seq<u8>>,
    ) -> ArchiveView {
        ArchiveView {
            entries: self.entries.push(entry),
            payloads: self.payloads.push(payload),
            sources: self.sources.push(source),
            comment: self.comment,
        }
    }

    /// Every entry defers checksum and sizes to a data descriptor.
    pub open spec fn all_deferred(self) -> bool {
        forall|index: int|
            0 <= index < self.entries.len() ==> has_flag(
                (#[trigger] self.entries[index]).flags,
                FLAG_DATA_DESCRIPTOR,
            )
    }

    /// No entry defers checksum and sizes: every local header holds them.
    pub open spec fn none_deferred(self) -> bool {
        forall|index: int|
            0 <= index < self.entries.len() ==> !has_flag(
                (#[trigger] self.entries[index]).flags,
                FLAG_DATA_DESCRIPTOR,
            )
    }
}

/// Appending an entry whose record agrees with the end of the archive keeps the
/// archive well formed, and adds the bytes of that entry to it.
pub proof fn lemma_push_entry(
    archive: ArchiveView,
    entry: EntryView,
    payload: Seq<u8>,
    source: Option<Seq<u8>>,
)
    requires
        archive.wf(),
        recorded(entry, payload, source, archive.bytes().len()),
    ensures
        archive.push(entry, payload, source).wf(),
        archive.push(entry, payload, source).bytes() == archive.bytes() + entry_bytes(
            entry,
            payload,
        ),
{
    let next = archive.push(entry, payload, source);
    let count = archive.entries.len() as int;
    assert(next.entries.drop_last() =~= archive.entries);
    assert(next.payloads.drop_last() =~= archive.payloads);
    assert forall|index: int| 0 <= index < next.entries.len() implies #[trigger] next.recorded_at(
        index,
    ) by {
        if index < count {
            assert(next.entries.take(index) =~= archive.entries.take(index));
            assert(next.payloads.take(index) =~= archive.payloads.take(index));
            assert(archive.recorded_at(index));
        } else {
            assert(next.entries.take(index) =~= archive.entries);
            assert(next.payloads.take(index) =~= archive.payloads);
        }
    }
}

/// An entry with the data descriptor flag keeps an archive of such entries one.
pub proof fn lemma_push_deferred(
    archive: ArchiveView,
    entry: EntryView,
    payload: Seq<u8>,
    source: Option<Seq<u8>>,
)
    requires
        archive.all_deferred(),
        has_flag(entry.flags, FLAG_DATA_DESCRIPTOR),
    ensures
        archive.push(entry, payload, source).all_deferred(),
{
    let next = archive.push(entry, payload, source);
    assert forall|index: int| 0 <= index < next.entries.len() implies has_flag(
        (#[trigger] next.entries[index]).flags,
        FLAG_DATA_DESCRIPTOR,
    ) by {
        if index < archive.entries.len() {
            assert(next.entries[index] == archive.entries[index]);
        }
    }
}

/// An entry without the data descriptor flag keeps an archive of such entries one.
pub proof fn lemma_push_headed(
    archive: ArchiveView,
    entry: EntryView,
    payload: Seq<u8>,
    source: Option<Seq<u8>>,
)
    requires
        archive.none_deferred(),
        !has_flag(entry.flags, FLAG_DATA_DESCRIPTOR),
    ensures
        archive.push(entry, payload, source).none_deferred(),
{
    let next = archive.push(entry, payload, source);
    assert forall|index: int| 0 <= index < next.entries.len() implies !has_flag(
        (#[trigger] next.entries[index]).flags,
        FLAG_DATA_DESCRIPTOR,
    ) by {
        if index < archive.entries.len() {
            assert(next.entries[index] == archive.entries[index]);
        }
    }
}

} // verus!

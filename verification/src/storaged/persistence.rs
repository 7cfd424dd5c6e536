//! Crash-safe persistence of the storage service metadata: a versioned,
//! checksummed little-endian image of the volume, mount, snapshot and
//! package-file tables.

use vstd::prelude::*;
use crate::bytes::{
    enc_all, fnv32, fnv32_range, le16, le32, le64, lemma_enc_all_at, lemma_enc_all_len, lemma_le16,
    lemma_le32, lemma_le64, push_le16, push_le32, push_le64, rd16, rd32, rd64, read_le16, read_le32,
    read_le64,
};
use crate::table::{compact, lemma_compact_len, lemma_compact_members, packed};
use super::{
    has_volume, names_volume, storage_invariant, volumes_sized, vol_is, MountEntry, PackageFileRecord, SnapshotMetadata, StorageDaemon, StorageVolume,
    VolumeType, CACHE_BLOCKS, MAX_MOUNTS, MAX_PACKAGE_FILES, MAX_SNAPSHOTS, MAX_VOLUMES,
};

verus! {

pub const STATE_MAGIC: [u8; 4] = [0x41, 0x57, 0x53, 0x50];
pub const STATE_VERSION: u8 = 1;
pub const MAX_STATE_SIZE: usize = 4096;
pub const HEADER_LEN: usize = 20;
pub const VOLUME_REC_LEN: usize = 24;
pub const MOUNT_REC_LEN: usize = 17;
pub const SNAPSHOT_REC_LEN: usize = 24;
pub const FILE_REC_LEN: usize = 25;

#[derive(Clone, Copy, Debug, PartialEq, Eq, Structural)]
pub enum PersistError {
    BufferTooSmall,
    Truncated,
    BadMagic,
    UnsupportedVersion,
    ChecksumMismatch,
    InvalidRecord,
    InvalidCount,
    Overflow,
}

// ----------------------------------------------------------------------------
// The image format
// ----------------------------------------------------------------------------

pub open spec fn magic_bytes() -> Seq<u8> {
    seq![0x41u8, 0x57u8, 0x53u8, 0x50u8]
}

pub open spec fn type_byte(t: VolumeType) -> u8 {
    match t {
        VolumeType::Ramdisk => 0,
        VolumeType::GptPartition => 1,
        VolumeType::VirtualDisk => 2,
        VolumeType::AweFsVolume => 3,
    }
}

pub open spec fn type_of_byte(b: u8) -> VolumeType {
    if b == 0 {
        VolumeType::Ramdisk
    } else if b == 1 {
        VolumeType::GptPartition
    } else if b == 2 {
        VolumeType::VirtualDisk
    } else {
        VolumeType::AweFsVolume
    }
}

pub open spec fn bool_byte(b: bool) -> u8 {
    if b { 1 } else { 0 }
}

pub open spec fn enc_volume(v: StorageVolume) -> Seq<u8> {
    le32(v.volume_id) + seq![type_byte(v.volume_type), bool_byte(v.read_only)] + le16(0) + le64(v.block_count) + le64(v.start_lba)
}

pub open spec fn enc_mount(m: MountEntry) -> Seq<u8> {
    le32(m.mount_id) + le32(m.volume_id) + le64(m.path_hash) + seq![bool_byte(m.active)]
}

pub open spec fn enc_snapshot(s: SnapshotMetadata) -> Seq<u8> {
    le32(s.snapshot_id) + le32(s.volume_id) + le64(s.timestamp) + le32(s.block_delta_count) + le32(0)
}

pub open spec fn enc_file(f: PackageFileRecord) -> Seq<u8> {
    le32(f.file_id) + le32(f.volume_id) + le64(f.name_hash) + le32(f.size_bytes) + seq![bool_byte(f.is_installed_package)]
}

pub open spec fn volume_enc() -> spec_fn(StorageVolume) -> Seq<u8> {
    |v: StorageVolume| enc_volume(v)
}

pub open spec fn mount_enc() -> spec_fn(MountEntry) -> Seq<u8> {
    |m: MountEntry| enc_mount(m)
}

pub open spec fn snapshot_enc() -> spec_fn(SnapshotMetadata) -> Seq<u8> {
    |s: SnapshotMetadata| enc_snapshot(s)
}

pub open spec fn file_enc() -> spec_fn(PackageFileRecord) -> Seq<u8> {
    |f: PackageFileRecord| enc_file(f)
}

pub open spec fn volume_recs(st: StorageDaemon) -> Seq<u8> {
    enc_all(compact(st.volumes@), volume_enc())
}

pub open spec fn mount_recs(st: StorageDaemon) -> Seq<u8> {
    enc_all(compact(st.mounts@), mount_enc())
}

pub open spec fn snapshot_recs(st: StorageDaemon) -> Seq<u8> {
    enc_all(compact(st.snapshots@), snapshot_enc())
}

pub open spec fn file_recs(st: StorageDaemon) -> Seq<u8> {
    enc_all(compact(st.files@), file_enc())
}

/// Zero bytes reserved at the end of the record area: four per file record.
pub open spec fn file_padding(st: StorageDaemon) -> Seq<u8> {
    Seq::new(4 * compact(st.files@).len(), |i: int| 0u8)
}

/// The record area of the image: every occupied slot, table by table, then
/// the reserved padding of the file table.
pub open spec fn payload(st: StorageDaemon) -> Seq<u8> {
    volume_recs(st) + mount_recs(st) + snapshot_recs(st) + file_recs(st) + file_padding(st)
}

/// The four record counts of the image of `st`.
pub open spec fn counts(st: StorageDaemon) -> Seq<u8> {
    le16(compact(st.volumes@).len() as u16) + le16(compact(st.mounts@).len() as u16)
        + le16(compact(st.snapshots@).len() as u16) + le16(compact(st.files@).len() as u16)
}

/// The 20-byte header of the image of `st`: magic, version, total length,
/// FNV-1a of everything after the checksum field (the counts and the
/// records), the four record counts.
pub open spec fn state_header(st: StorageDaemon) -> Seq<u8> {
    magic_bytes() + seq![STATE_VERSION, 0u8] + le16((HEADER_LEN + payload(st).len()) as u16)
        + le32(fnv32(counts(st) + payload(st))) + counts(st)
}

/// The full image `export_state` writes for `st`: the header, then the records.
pub open spec fn encode_state(st: StorageDaemon) -> Seq<u8> {
    state_header(st) + payload(st)
}

// ----------------------------------------------------------------------------
// Reading an image
// ----------------------------------------------------------------------------

pub open spec fn total_field(s: Seq<u8>) -> int { rd16(s, 6) as int }
pub open spec fn vc_field(s: Seq<u8>) -> int { rd16(s, 12) as int }
pub open spec fn mc_field(s: Seq<u8>) -> int { rd16(s, 14) as int }
pub open spec fn sc_field(s: Seq<u8>) -> int { rd16(s, 16) as int }
pub open spec fn fc_field(s: Seq<u8>) -> int { rd16(s, 18) as int }

pub open spec fn vol_off(s: Seq<u8>, k: int) -> int { 20 + 24 * k }
pub open spec fn mount_off(s: Seq<u8>, k: int) -> int { 20 + 24 * vc_field(s) + 17 * k }
pub open spec fn snap_off(s: Seq<u8>, k: int) -> int { 20 + 24 * vc_field(s) + 17 * mc_field(s) + 24 * k }
pub open spec fn file_off(s: Seq<u8>, k: int) -> int {
    20 + 24 * vc_field(s) + 17 * mc_field(s) + 24 * sc_field(s) + 21 * k
}

pub open spec fn dec_volume(s: Seq<u8>, o: int) -> StorageVolume {
    StorageVolume {
        volume_id: rd32(s, o),
        volume_type: type_of_byte(s[o + 4]),
        read_only: s[o + 5] != 0,
        block_count: rd64(s, o + 8),
        start_lba: rd64(s, o + 16),
    }
}

pub open spec fn dec_mount(s: Seq<u8>, o: int) -> MountEntry {
    MountEntry { mount_id: rd32(s, o), volume_id: rd32(s, o + 4), path_hash: rd64(s, o + 8), active: s[o + 16] != 0 }
}

pub open spec fn dec_snapshot(s: Seq<u8>, o: int) -> SnapshotMetadata {
    SnapshotMetadata { snapshot_id: rd32(s, o), volume_id: rd32(s, o + 4), timestamp: rd64(s, o + 8), block_delta_count: rd32(s, o + 16) }
}

pub open spec fn dec_file(s: Seq<u8>, o: int) -> PackageFileRecord {
    PackageFileRecord {
        file_id: rd32(s, o),
        volume_id: rd32(s, o + 4),
        name_hash: rd64(s, o + 8),
        size_bytes: rd32(s, o + 16),
        is_installed_package: s[o + 20] != 0,
    }
}

/// The volume table an image describes: its first `vc` records, then empty slots.
pub open spec fn decoded_volumes(s: Seq<u8>) -> Seq<Option<StorageVolume>> {
    Seq::new(MAX_VOLUMES as nat, |i: int| if i < vc_field(s) { Some(dec_volume(s, vol_off(s, i))) } else { None })
}

pub open spec fn decoded_mounts(s: Seq<u8>) -> Seq<Option<MountEntry>> {
    Seq::new(MAX_MOUNTS as nat, |i: int| if i < mc_field(s) { Some(dec_mount(s, mount_off(s, i))) } else { None })
}

pub open spec fn decoded_snapshots(s: Seq<u8>) -> Seq<Option<SnapshotMetadata>> {
    Seq::new(MAX_SNAPSHOTS as nat, |i: int| if i < sc_field(s) { Some(dec_snapshot(s, snap_off(s, i))) } else { None })
}

pub open spec fn decoded_files(s: Seq<u8>) -> Seq<Option<PackageFileRecord>> {
    Seq::new(MAX_PACKAGE_FILES as nat, |i: int| if i < fc_field(s) { Some(dec_file(s, file_off(s, i))) } else { None })
}

pub open spec fn volume_rec_ok(s: Seq<u8>, k: int) -> bool {
    s[vol_off(s, k) + 4] <= 3 && rd32(s, vol_off(s, k)) != 0 && rd64(s, vol_off(s, k) + 8) != 0
}

/// A record that names a volume is valid when its own id and the volume id are
/// non-zero and that volume is among the image's volumes.
pub open spec fn ref_rec_ok(s: Seq<u8>, o: int) -> bool {
    rd32(s, o) != 0 && rd32(s, o + 4) != 0 && has_volume(decoded_volumes(s), rd32(s, o + 4))
}

pub open spec fn records_ok(s: Seq<u8>) -> bool {
    &&& forall|k: int| 0 <= k < vc_field(s) ==> #[trigger] volume_rec_ok(s, k)
    &&& forall|k: int| 0 <= k < mc_field(s) ==> #[trigger] ref_rec_ok(s, mount_off(s, k))
    &&& forall|k: int| 0 <= k < sc_field(s) ==> #[trigger] ref_rec_ok(s, snap_off(s, k))
    &&& forall|k: int| 0 <= k < fc_field(s) ==> #[trigger] ref_rec_ok(s, file_off(s, k))
}

/// What `import_state` answers for the bytes `s`: the first failed check.
pub open spec fn import_outcome(s: Seq<u8>) -> Result<(), PersistError> {
    if s.len() < HEADER_LEN {
        Err(PersistError::Truncated)
    } else if s.subrange(0, 4) != magic_bytes() {
        Err(PersistError::BadMagic)
    } else if s[4] != STATE_VERSION {
        Err(PersistError::UnsupportedVersion)
    } else if total_field(s) < HEADER_LEN || total_field(s) > s.len() || total_field(s) > MAX_STATE_SIZE {
        Err(PersistError::InvalidCount)
    } else if fnv32(s.subrange(12, total_field(s))) != rd32(s, 8) {
        Err(PersistError::ChecksumMismatch)
    } else if vc_field(s) > MAX_VOLUMES || mc_field(s) > MAX_MOUNTS || sc_field(s) > MAX_SNAPSHOTS
        || fc_field(s) > MAX_PACKAGE_FILES {
        Err(PersistError::InvalidCount)
    } else if HEADER_LEN + 24 * vc_field(s) + 17 * mc_field(s) + 24 * sc_field(s) + 25 * fc_field(s) != total_field(s) {
        Err(PersistError::InvalidCount)
    } else if !records_ok(s) {
        Err(PersistError::InvalidRecord)
    } else {
        Ok(())
    }
}

/// Largest element of `s` (0 when empty).
pub open spec fn max_u32(s: Seq<u32>) -> u32
    decreases s.len(),
{
    if s.len() == 0 {
        0
    } else {
        let m = max_u32(s.drop_last());
        if s.last() > m { s.last() } else { m }
    }
}

/// The ids of the first `n` records of stride `stride` starting at `base`.
pub open spec fn ids_at(s: Seq<u8>, base: int, stride: int, n: int) -> Seq<u32> {
    Seq::new(n as nat, |k: int| rd32(s, base + stride * k))
}

/// The counter that continues after the largest id of a table.
pub open spec fn next_counter(ids: Seq<u32>) -> u32 {
    max_u32(ids).saturating_add(1)
}

/// The service state an accepted image restores (the block cache starts empty).
pub open spec fn restored(st: StorageDaemon, s: Seq<u8>) -> bool {
    &&& st.volumes@ == decoded_volumes(s)
    &&& st.mounts@ == decoded_mounts(s)
    &&& st.snapshots@ == decoded_snapshots(s)
    &&& st.files@ == decoded_files(s)
    &&& forall|i: int| 0 <= i < CACHE_BLOCKS ==> (#[trigger] st.cache@[i]) is None
    &&& st.volume_counter == next_counter(ids_at(s, 20, 24, vc_field(s)))
    &&& st.mount_counter == next_counter(ids_at(s, mount_off(s, 0), 17, mc_field(s)))
    &&& st.snapshot_counter == next_counter(ids_at(s, snap_off(s, 0), 24, sc_field(s)))
    &&& st.file_counter == next_counter(ids_at(s, file_off(s, 0), 21, fc_field(s)))
    &&& st.self_healed_events == 0
}

// ----------------------------------------------------------------------------
// Writing an image
// ----------------------------------------------------------------------------

fn push_volume(out: &mut Vec<u8>, v: &StorageVolume)
    ensures
        final(out)@ == old(out)@ + enc_volume(*v),
{
    push_le32(out, v.volume_id);
    let t: u8 = match v.volume_type {
        VolumeType::Ramdisk => 0,
        VolumeType::GptPartition => 1,
        VolumeType::VirtualDisk => 2,
        VolumeType::AweFsVolume => 3,
    };
    out.push(t);
    out.push(if v.read_only { 1 } else { 0 });
    push_le16(out, 0);
    push_le64(out, v.block_count);
    push_le64(out, v.start_lba);
    assert(final(out)@ =~= old(out)@ + enc_volume(*v));
}

fn push_mount(out: &mut Vec<u8>, m: &MountEntry)
    ensures
        final(out)@ == old(out)@ + enc_mount(*m),
{
    push_le32(out, m.mount_id);
    push_le32(out, m.volume_id);
    push_le64(out, m.path_hash);
    out.push(if m.active { 1 } else { 0 });
    assert(final(out)@ =~= old(out)@ + enc_mount(*m));
}

fn push_snapshot(out: &mut Vec<u8>, sn: &SnapshotMetadata)
    ensures
        final(out)@ == old(out)@ + enc_snapshot(*sn),
{
    push_le32(out, sn.snapshot_id);
    push_le32(out, sn.volume_id);
    push_le64(out, sn.timestamp);
    push_le32(out, sn.block_delta_count);
    push_le32(out, 0);
    assert(final(out)@ =~= old(out)@ + enc_snapshot(*sn));
}

fn push_file(out: &mut Vec<u8>, f: &PackageFileRecord)
    ensures
        final(out)@ == old(out)@ + enc_file(*f),
{
    push_le32(out, f.file_id);
    push_le32(out, f.volume_id);
    push_le64(out, f.name_hash);
    push_le32(out, f.size_bytes);
    out.push(if f.is_installed_package { 1 } else { 0 });
    assert(final(out)@ =~= old(out)@ + enc_file(*f));
}

proof fn lemma_compact_step<T>(s: Seq<Option<T>>, i: int)
    requires
        0 <= i < s.len(),
    ensures
        compact(s.take(i + 1)) == match s[i] {
            Some(x) => compact(s.take(i)).push(x),
            None => compact(s.take(i)),
        },
{
    assert(s.take(i + 1).drop_last() =~= s.take(i));
}

proof fn lemma_enc_all_push<T>(s: Seq<T>, x: T, f: spec_fn(T) -> Seq<u8>)
    ensures
        enc_all(s.push(x), f) == enc_all(s, f) + f(x),
{
    assert(s.push(x).drop_last() =~= s);
}

fn push_volumes(vols: &[Option<StorageVolume>; MAX_VOLUMES], out: &mut Vec<u8>) -> (n: usize)
    ensures
        final(out)@ == old(out)@ + enc_all(compact(vols@), volume_enc()),
        n == compact(vols@).len(),
{
    let mut n: usize = 0;
    let mut i: usize = 0;
    assert(vols@.take(0) =~= Seq::<Option<StorageVolume>>::empty());
    while i < MAX_VOLUMES
        invariant
            vols@.len() == MAX_VOLUMES,
            i <= MAX_VOLUMES,
            n == compact(vols@.take(i as int)).len(),
            n <= i,
            out@ == old(out)@ + enc_all(compact(vols@.take(i as int)), volume_enc()),
        decreases MAX_VOLUMES - i,
    {
        proof {
            lemma_compact_step(vols@, i as int);
        }
        if let Some(v) = &vols[i] {
            proof {
                lemma_enc_all_push(compact(vols@.take(i as int)), *v, volume_enc());
                assert(vols@[i as int] == Some(*v));
                assert(volume_enc()(*v) == enc_volume(*v));
            }
            push_volume(out, v);
            n += 1;
            assert(out@ =~= old(out)@ + enc_all(compact(vols@.take(i as int + 1)), volume_enc()));
        }
        i += 1;
    }
    assert(vols@.take(MAX_VOLUMES as int) =~= vols@);
    n
}

fn push_mounts(mounts: &[Option<MountEntry>; MAX_MOUNTS], out: &mut Vec<u8>) -> (n: usize)
    ensures
        final(out)@ == old(out)@ + enc_all(compact(mounts@), mount_enc()),
        n == compact(mounts@).len(),
{
    let mut n: usize = 0;
    let mut i: usize = 0;
    assert(mounts@.take(0) =~= Seq::<Option<MountEntry>>::empty());
    while i < MAX_MOUNTS
        invariant
            mounts@.len() == MAX_MOUNTS,
            i <= MAX_MOUNTS,
            n == compact(mounts@.take(i as int)).len(),
            n <= i,
            out@ == old(out)@ + enc_all(compact(mounts@.take(i as int)), mount_enc()),
        decreases MAX_MOUNTS - i,
    {
        proof {
            lemma_compact_step(mounts@, i as int);
        }
        if let Some(m) = &mounts[i] {
            proof {
                lemma_enc_all_push(compact(mounts@.take(i as int)), *m, mount_enc());
                assert(mounts@[i as int] == Some(*m));
                assert(mount_enc()(*m) == enc_mount(*m));
            }
            push_mount(out, m);
            n += 1;
            assert(out@ =~= old(out)@ + enc_all(compact(mounts@.take(i as int + 1)), mount_enc()));
        }
        i += 1;
    }
    assert(mounts@.take(MAX_MOUNTS as int) =~= mounts@);
    n
}

fn push_snapshots(snaps: &[Option<SnapshotMetadata>; MAX_SNAPSHOTS], out: &mut Vec<u8>) -> (n: usize)
    ensures
        final(out)@ == old(out)@ + enc_all(compact(snaps@), snapshot_enc()),
        n == compact(snaps@).len(),
{
    let mut n: usize = 0;
    let mut i: usize = 0;
    assert(snaps@.take(0) =~= Seq::<Option<SnapshotMetadata>>::empty());
    while i < MAX_SNAPSHOTS
        invariant
            snaps@.len() == MAX_SNAPSHOTS,
            i <= MAX_SNAPSHOTS,
            n == compact(snaps@.take(i as int)).len(),
            n <= i,
            out@ == old(out)@ + enc_all(compact(snaps@.take(i as int)), snapshot_enc()),
        decreases MAX_SNAPSHOTS - i,
    {
        proof {
            lemma_compact_step(snaps@, i as int);
        }
        if let Some(sn) = &snaps[i] {
            proof {
                lemma_enc_all_push(compact(snaps@.take(i as int)), *sn, snapshot_enc());
                assert(snaps@[i as int] == Some(*sn));
                assert(snapshot_enc()(*sn) == enc_snapshot(*sn));
            }
            push_snapshot(out, sn);
            n += 1;
            assert(out@ =~= old(out)@ + enc_all(compact(snaps@.take(i as int + 1)), snapshot_enc()));
        }
        i += 1;
    }
    assert(snaps@.take(MAX_SNAPSHOTS as int) =~= snaps@);
    n
}

fn push_files(files: &[Option<PackageFileRecord>; MAX_PACKAGE_FILES], out: &mut Vec<u8>) -> (n: usize)
    ensures
        final(out)@ == old(out)@ + enc_all(compact(files@), file_enc()),
        n == compact(files@).len(),
{
    let mut n: usize = 0;
    let mut i: usize = 0;
    assert(files@.take(0) =~= Seq::<Option<PackageFileRecord>>::empty());
    while i < MAX_PACKAGE_FILES
        invariant
            files@.len() == MAX_PACKAGE_FILES,
            i <= MAX_PACKAGE_FILES,
            n == compact(files@.take(i as int)).len(),
            n <= i,
            out@ == old(out)@ + enc_all(compact(files@.take(i as int)), file_enc()),
        decreases MAX_PACKAGE_FILES - i,
    {
        proof {
            lemma_compact_step(files@, i as int);
        }
        if let Some(r) = &files[i] {
            proof {
                lemma_enc_all_push(compact(files@.take(i as int)), *r, file_enc());
                assert(files@[i as int] == Some(*r));
                assert(file_enc()(*r) == enc_file(*r));
            }
            push_file(out, r);
            n += 1;
            assert(out@ =~= old(out)@ + enc_all(compact(files@.take(i as int + 1)), file_enc()));
        }
        i += 1;
    }
    assert(files@.take(MAX_PACKAGE_FILES as int) =~= files@);
    n
}

proof fn lemma_record_lens()
    ensures
        forall|v: StorageVolume| (#[trigger] enc_volume(v)).len() == 24,
        forall|m: MountEntry| (#[trigger] enc_mount(m)).len() == 17,
        forall|x: SnapshotMetadata| (#[trigger] enc_snapshot(x)).len() == 24,
        forall|f: PackageFileRecord| (#[trigger] enc_file(f)).len() == 21,
{
    assert forall|v: StorageVolume| (#[trigger] enc_volume(v)).len() == 24 by {}
    assert forall|m: MountEntry| (#[trigger] enc_mount(m)).len() == 17 by {}
    assert forall|x: SnapshotMetadata| (#[trigger] enc_snapshot(x)).len() == 24 by {}
    assert forall|f: PackageFileRecord| (#[trigger] enc_file(f)).len() == 21 by {}
}

proof fn lemma_payload_len(st: StorageDaemon)
    ensures
        payload(st).len() == 24 * compact(st.volumes@).len() + 17 * compact(st.mounts@).len()
            + 24 * compact(st.snapshots@).len() + 25 * compact(st.files@).len(),
        file_padding(st).len() == 4 * compact(st.files@).len(),
        compact(st.volumes@).len() <= MAX_VOLUMES,
        compact(st.mounts@).len() <= MAX_MOUNTS,
        compact(st.snapshots@).len() <= MAX_SNAPSHOTS,
        compact(st.files@).len() <= MAX_PACKAGE_FILES,
{
    lemma_compact_len(st.volumes@);
    lemma_compact_len(st.mounts@);
    lemma_compact_len(st.snapshots@);
    lemma_compact_len(st.files@);
    lemma_record_lens();
    lemma_enc_all_len(compact(st.volumes@), volume_enc(), 24);
    lemma_enc_all_len(compact(st.mounts@), mount_enc(), 17);
    lemma_enc_all_len(compact(st.snapshots@), snapshot_enc(), 24);
    lemma_enc_all_len(compact(st.files@), file_enc(), 21);
}

/// The record area of the image, with the four record counts.
fn build_payload(storage: &StorageDaemon) -> (r: (Vec<u8>, usize, usize, usize, usize))
    ensures
        r.0@ == payload(*storage),
        r.1 == compact(storage.volumes@).len(),
        r.2 == compact(storage.mounts@).len(),
        r.3 == compact(storage.snapshots@).len(),
        r.4 == compact(storage.files@).len(),
{
    let mut payload_bytes: Vec<u8> = Vec::new();
    let vc = push_volumes(&storage.volumes, &mut payload_bytes);
    let mc = push_mounts(&storage.mounts, &mut payload_bytes);
    let sc = push_snapshots(&storage.snapshots, &mut payload_bytes);
    let fc = push_files(&storage.files, &mut payload_bytes);
    proof { lemma_payload_len(*storage); }
    let ghost before = payload_bytes@;
    let mut z: usize = 0;
    while z < 4 * fc
        invariant
            fc <= MAX_PACKAGE_FILES,
            z <= 4 * fc,
            payload_bytes@ == before + Seq::new(z as nat, |i: int| 0u8),
        decreases 4 * fc - z,
    {
        payload_bytes.push(0);
        z += 1;
        assert(payload_bytes@ =~= before + Seq::new(z as nat, |i: int| 0u8));
    }
    assert(payload_bytes@ =~= payload(*storage));
    (payload_bytes, vc, mc, sc, fc)
}

/// The whole image of `storage`.
#[verifier::rlimit(40)]
fn build_image(storage: &StorageDaemon) -> (image: Vec<u8>)
    ensures
        image@ == encode_state(*storage),
        image@.len() == HEADER_LEN + payload(*storage).len(),
        image@.len() <= 1668,
{
    proof { lemma_payload_len(*storage); }
    let (payload_bytes, vc, mc, sc, fc) = build_payload(storage);
    let total_len = HEADER_LEN + payload_bytes.len();
    let mut body: Vec<u8> = Vec::new();
    push_le16(&mut body, vc as u16);
    push_le16(&mut body, mc as u16);
    push_le16(&mut body, sc as u16);
    push_le16(&mut body, fc as u16);
    assert(body@ =~= counts(*storage));
    append_bytes(&mut body, &payload_bytes);
    let checksum = fnv32_range(body.as_slice(), 0, body.len());
    assert(body@.subrange(0, body@.len() as int) =~= body@);
    let mut image = image_header(total_len as u16, checksum);
    append_bytes(&mut image, &body);
    assert(image@ =~= encode_state(*storage));
    image
}

fn image_header(total: u16, checksum: u32) -> (image: Vec<u8>)
    ensures
        image@ == magic_bytes() + seq![STATE_VERSION, 0u8] + le16(total) + le32(checksum),
{
    let mut image: Vec<u8> = Vec::new();
    image.push(STATE_MAGIC[0]);
    image.push(STATE_MAGIC[1]);
    image.push(STATE_MAGIC[2]);
    image.push(STATE_MAGIC[3]);
    image.push(STATE_VERSION);
    image.push(0);
    assert(image@ =~= magic_bytes() + seq![STATE_VERSION, 0u8]);
    push_le16(&mut image, total);
    push_le32(&mut image, checksum);
    image
}

fn append_bytes(image: &mut Vec<u8>, tail: &Vec<u8>)
    ensures
        final(image)@ == old(image)@ + tail@,
{
    let mut i: usize = 0;
    while i < tail.len()
        invariant
            i <= tail@.len(),
            image@ == old(image)@ + tail@.take(i as int),
        decreases tail@.len() - i,
    {
        assert(tail@.take(i + 1) =~= tail@.take(i as int).push(tail@[i as int]));
        image.push(tail[i]);
        i += 1;
    }
    assert(tail@.take(i as int) =~= tail@);
}

/// Copies `image` to the front of `out`.
fn copy_into(out: &mut [u8], image: &Vec<u8>)
    requires
        image@.len() <= old(out)@.len(),
    ensures
        final(out)@ == image@ + old(out)@.skip(image@.len() as int),
{
    let n = image.len();
    let mut j: usize = 0;
    while j < n
        invariant
            n == image@.len(),
            n <= out@.len(),
            j <= n,
            out@.len() == old(out)@.len(),
            forall|k: int| 0 <= k < j ==> out@[k] == image@[k],
            forall|k: int| j <= k < out@.len() ==> out@[k] == old(out)@[k],
        decreases n - j,
    {
        out[j] = image[j];
        j += 1;
    }
    assert(out@ =~= image@ + old(out)@.skip(n as int));
}

/// Serialises the service metadata into `out`. On success the first `n`
/// bytes of `out` are the image of `storage` and the rest is untouched.
pub fn export_state(storage: &StorageDaemon, out: &mut [u8]) -> (r: Result<usize, PersistError>)
    ensures
        match r {
            Ok(n) => n == encode_state(*storage).len() && final(out)@ == encode_state(*storage) + old(out)@.skip(n as int),
            Err(e) => e == PersistError::BufferTooSmall && old(out)@.len() < encode_state(*storage).len()
                && final(out)@ == old(out)@,
        },
{
    proof { lemma_payload_len(*storage); }
    if out.len() < HEADER_LEN {
        return Err(PersistError::BufferTooSmall);
    }
    let image = build_image(storage);
    let total_len = image.len();
    if total_len > out.len() || total_len > MAX_STATE_SIZE {
        return Err(PersistError::BufferTooSmall);
    }
    copy_into(out, &image);
    Ok(total_len)
}

// ----------------------------------------------------------------------------
// Importing an image
// ----------------------------------------------------------------------------

proof fn lemma_ids_step(s: Seq<u8>, base: int, stride: int, k: int)
    requires
        k >= 0,
    ensures
        ids_at(s, base, stride, k + 1).drop_last() == ids_at(s, base, stride, k),
        ids_at(s, base, stride, k + 1).last() == rd32(s, base + stride * k),
{
    assert(ids_at(s, base, stride, k + 1).drop_last() =~= ids_at(s, base, stride, k));
}

fn volume_in(vols: &[Option<StorageVolume>; MAX_VOLUMES], id: u32) -> (r: bool)
    ensures
        r == has_volume(vols@, id),
{
    let mut i: usize = 0;
    while i < MAX_VOLUMES
        invariant
            vols@.len() == MAX_VOLUMES,
            i <= MAX_VOLUMES,
            forall|j: int| 0 <= j < i ==> !vol_is(#[trigger] vols@[j], id),
        decreases MAX_VOLUMES - i,
    {
        if let Some(v) = &vols[i] {
            if v.volume_id == id {
                assert(vol_is(vols@[i as int], id));
                return true;
            }
        }
        i += 1;
    }
    false
}

fn decode_volumes(input: &[u8], vc: usize) -> (r: Result<([Option<StorageVolume>; MAX_VOLUMES], u32), PersistError>)
    requires
        vc == vc_field(input@),
        vc <= MAX_VOLUMES,
        20 + 24 * vc <= input@.len(),
    ensures
        match r {
            Ok((vols, m)) => vols@ == decoded_volumes(input@) && m == max_u32(ids_at(input@, 20, 24, vc as int))
                && forall|k: int| 0 <= k < vc ==> #[trigger] volume_rec_ok(input@, k),
            Err(e) => e == PersistError::InvalidRecord && exists|k: int| 0 <= k < vc && !#[trigger] volume_rec_ok(input@, k),
        },
{
    let mut vols: [Option<StorageVolume>; MAX_VOLUMES] = [None; MAX_VOLUMES];
    let mut max_id: u32 = 0;
    let mut k: usize = 0;
    while k < vc
        invariant
            vc == vc_field(input@),
            vc <= MAX_VOLUMES,
            20 + 24 * vc <= input@.len(),
            k <= vc,
            vols@.len() == MAX_VOLUMES,
            forall|i: int| 0 <= i < MAX_VOLUMES ==> #[trigger] vols@[i] == if i < k { Some(dec_volume(input@, vol_off(input@, i))) } else { None },
            forall|j: int| 0 <= j < k ==> #[trigger] volume_rec_ok(input@, j),
            max_id == max_u32(ids_at(input@, 20, 24, k as int)),
        decreases vc - k,
    {
        let o = 20 + 24 * k;
        let id = read_le32(input, o);
        let tb = input[o + 4];
        let ty = if tb == 0 {
            VolumeType::Ramdisk
        } else if tb == 1 {
            VolumeType::GptPartition
        } else if tb == 2 {
            VolumeType::VirtualDisk
        } else if tb == 3 {
            VolumeType::AweFsVolume
        } else {
            assert(!volume_rec_ok(input@, k as int));
            return Err(PersistError::InvalidRecord);
        };
        let read_only = input[o + 5] != 0;
        let blocks = read_le64(input, o + 8);
        let start = read_le64(input, o + 16);
        if id == 0 || blocks == 0 {
            assert(!volume_rec_ok(input@, k as int));
            return Err(PersistError::InvalidRecord);
        }
        proof { lemma_ids_step(input@, 20, 24, k as int); }
        if id > max_id {
            max_id = id;
        }
        vols[k] = Some(StorageVolume { volume_id: id, volume_type: ty, block_count: blocks, start_lba: start, read_only });
        assert(volume_rec_ok(input@, k as int));
        k += 1;
    }
    assert(vols@ =~= decoded_volumes(input@));
    Ok((vols, max_id))
}

fn decode_mounts(input: &[u8], vols: &[Option<StorageVolume>; MAX_VOLUMES], base: usize, mc: usize)
    -> (r: Result<([Option<MountEntry>; MAX_MOUNTS], u32), PersistError>)
    requires
        vols@ == decoded_volumes(input@),
        mc == mc_field(input@),
        base == mount_off(input@, 0),
        mc <= MAX_MOUNTS,
        base + 17 * mc <= input@.len(),
    ensures
        match r {
            Ok((ms, m)) => ms@ == decoded_mounts(input@) && m == max_u32(ids_at(input@, base as int, 17, mc as int))
                && forall|k: int| 0 <= k < mc ==> #[trigger] ref_rec_ok(input@, mount_off(input@, k)),
            Err(e) => e == PersistError::InvalidRecord && exists|k: int| 0 <= k < mc && !#[trigger] ref_rec_ok(input@, mount_off(input@, k)),
        },
{
    let mut ms: [Option<MountEntry>; MAX_MOUNTS] = [None; MAX_MOUNTS];
    let mut max_id: u32 = 0;
    let mut k: usize = 0;
    while k < mc
        invariant
            vols@ == decoded_volumes(input@),
            mc == mc_field(input@),
            base == mount_off(input@, 0),
            mc <= MAX_MOUNTS,
            base + 17 * mc <= input@.len(),
            k <= mc,
            ms@.len() == MAX_MOUNTS,
            forall|i: int| 0 <= i < MAX_MOUNTS ==> #[trigger] ms@[i] == if i < k { Some(dec_mount(input@, mount_off(input@, i))) } else { None },
            forall|j: int| 0 <= j < k ==> #[trigger] ref_rec_ok(input@, mount_off(input@, j)),
            max_id == max_u32(ids_at(input@, base as int, 17, k as int)),
        decreases mc - k,
    {
        let o = base + 17 * k;
        assert(o == mount_off(input@, k as int));
        let id = read_le32(input, o);
        let vid = read_le32(input, o + 4);
        let path = read_le64(input, o + 8);
        let active = input[o + 16] != 0;
        if id == 0 || vid == 0 || !volume_in(vols, vid) {
            assert(!ref_rec_ok(input@, mount_off(input@, k as int)));
            return Err(PersistError::InvalidRecord);
        }
        proof { lemma_ids_step(input@, base as int, 17, k as int); }
        if id > max_id {
            max_id = id;
        }
        ms[k] = Some(MountEntry { mount_id: id, volume_id: vid, path_hash: path, active });
        assert(ref_rec_ok(input@, mount_off(input@, k as int)));
        k += 1;
    }
    assert(ms@ =~= decoded_mounts(input@));
    Ok((ms, max_id))
}

fn decode_snapshots(input: &[u8], vols: &[Option<StorageVolume>; MAX_VOLUMES], base: usize, sc: usize)
    -> (r: Result<([Option<SnapshotMetadata>; MAX_SNAPSHOTS], u32), PersistError>)
    requires
        vols@ == decoded_volumes(input@),
        sc == sc_field(input@),
        base == snap_off(input@, 0),
        sc <= MAX_SNAPSHOTS,
        base + 24 * sc <= input@.len(),
    ensures
        match r {
            Ok((ss, m)) => ss@ == decoded_snapshots(input@) && m == max_u32(ids_at(input@, base as int, 24, sc as int))
                && forall|k: int| 0 <= k < sc ==> #[trigger] ref_rec_ok(input@, snap_off(input@, k)),
            Err(e) => e == PersistError::InvalidRecord && exists|k: int| 0 <= k < sc && !#[trigger] ref_rec_ok(input@, snap_off(input@, k)),
        },
{
    let mut ss: [Option<SnapshotMetadata>; MAX_SNAPSHOTS] = [None; MAX_SNAPSHOTS];
    let mut max_id: u32 = 0;
    let mut k: usize = 0;
    while k < sc
        invariant
            vols@ == decoded_volumes(input@),
            sc == sc_field(input@),
            base == snap_off(input@, 0),
            sc <= MAX_SNAPSHOTS,
            base + 24 * sc <= input@.len(),
            k <= sc,
            ss@.len() == MAX_SNAPSHOTS,
            forall|i: int| 0 <= i < MAX_SNAPSHOTS ==> #[trigger] ss@[i] == if i < k { Some(dec_snapshot(input@, snap_off(input@, i))) } else { None },
            forall|j: int| 0 <= j < k ==> #[trigger] ref_rec_ok(input@, snap_off(input@, j)),
            max_id == max_u32(ids_at(input@, base as int, 24, k as int)),
        decreases sc - k,
    {
        let o = base + 24 * k;
        assert(o == snap_off(input@, k as int));
        let id = read_le32(input, o);
        let vid = read_le32(input, o + 4);
        let ts = read_le64(input, o + 8);
        let delta = read_le32(input, o + 16);
        if id == 0 || vid == 0 || !volume_in(vols, vid) {
            assert(!ref_rec_ok(input@, snap_off(input@, k as int)));
            return Err(PersistError::InvalidRecord);
        }
        proof { lemma_ids_step(input@, base as int, 24, k as int); }
        if id > max_id {
            max_id = id;
        }
        ss[k] = Some(SnapshotMetadata { snapshot_id: id, volume_id: vid, timestamp: ts, block_delta_count: delta });
        assert(ref_rec_ok(input@, snap_off(input@, k as int)));
        k += 1;
    }
    assert(ss@ =~= decoded_snapshots(input@));
    Ok((ss, max_id))
}

fn decode_files(input: &[u8], vols: &[Option<StorageVolume>; MAX_VOLUMES], base: usize, fc: usize)
    -> (r: Result<([Option<PackageFileRecord>; MAX_PACKAGE_FILES], u32), PersistError>)
    requires
        vols@ == decoded_volumes(input@),
        fc == fc_field(input@),
        base == file_off(input@, 0),
        fc <= MAX_PACKAGE_FILES,
        base + 21 * fc <= input@.len(),
    ensures
        match r {
            Ok((fs, m)) => fs@ == decoded_files(input@) && m == max_u32(ids_at(input@, base as int, 21, fc as int))
                && forall|k: int| 0 <= k < fc ==> #[trigger] ref_rec_ok(input@, file_off(input@, k)),
            Err(e) => e == PersistError::InvalidRecord && exists|k: int| 0 <= k < fc && !#[trigger] ref_rec_ok(input@, file_off(input@, k)),
        },
{
    let mut fs: [Option<PackageFileRecord>; MAX_PACKAGE_FILES] = [None; MAX_PACKAGE_FILES];
    let mut max_id: u32 = 0;
    let mut k: usize = 0;
    while k < fc
        invariant
            vols@ == decoded_volumes(input@),
            fc == fc_field(input@),
            base == file_off(input@, 0),
            fc <= MAX_PACKAGE_FILES,
            base + 21 * fc <= input@.len(),
            k <= fc,
            fs@.len() == MAX_PACKAGE_FILES,
            forall|i: int| 0 <= i < MAX_PACKAGE_FILES ==> #[trigger] fs@[i] == if i < k { Some(dec_file(input@, file_off(input@, i))) } else { None },
            forall|j: int| 0 <= j < k ==> #[trigger] ref_rec_ok(input@, file_off(input@, j)),
            max_id == max_u32(ids_at(input@, base as int, 21, k as int)),
        decreases fc - k,
    {
        let o = base + 21 * k;
        assert(o == file_off(input@, k as int));
        let id = read_le32(input, o);
        let vid = read_le32(input, o + 4);
        let name_hash = read_le64(input, o + 8);
        let size = read_le32(input, o + 16);
        let installed = input[o + 20] != 0;
        if id == 0 || vid == 0 || !volume_in(vols, vid) {
            assert(!ref_rec_ok(input@, file_off(input@, k as int)));
            return Err(PersistError::InvalidRecord);
        }
        proof { lemma_ids_step(input@, base as int, 21, k as int); }
        if id > max_id {
            max_id = id;
        }
        fs[k] = Some(PackageFileRecord { file_id: id, volume_id: vid, name_hash, size_bytes: size, is_installed_package: installed });
        assert(ref_rec_ok(input@, file_off(input@, k as int)));
        k += 1;
    }
    assert(fs@ =~= decoded_files(input@));
    Ok((fs, max_id))
}

/// Replaces the service metadata with the image in `input`. A rejected
/// image leaves `storage` untouched.
#[verifier::rlimit(40)]
pub fn import_state(storage: &mut StorageDaemon, input: &[u8]) -> (r: Result<(), PersistError>)
    ensures
        r == import_outcome(input@),
        r is Ok ==> restored(*final(storage), input@),
        r is Ok ==> storage_invariant(*final(storage)) && volumes_sized(*final(storage)),
        r is Err ==> *final(storage) == *old(storage),
{
    if input.len() < HEADER_LEN {
        return Err(PersistError::Truncated);
    }
    if input[0] != STATE_MAGIC[0] || input[1] != STATE_MAGIC[1] || input[2] != STATE_MAGIC[2] || input[3] != STATE_MAGIC[3] {
        assert(input@.subrange(0, 4) != magic_bytes()) by {
            if input@.subrange(0, 4) == magic_bytes() {
                assert(input@[0] == input@.subrange(0, 4)[0]);
                assert(input@[1] == input@.subrange(0, 4)[1]);
                assert(input@[2] == input@.subrange(0, 4)[2]);
                assert(input@[3] == input@.subrange(0, 4)[3]);
            }
        }
        return Err(PersistError::BadMagic);
    }
    assert(input@.subrange(0, 4) =~= magic_bytes());
    if input[4] != STATE_VERSION {
        return Err(PersistError::UnsupportedVersion);
    }
    let total_len = read_le16(input, 6) as usize;
    if total_len < HEADER_LEN || total_len > input.len() || total_len > MAX_STATE_SIZE {
        return Err(PersistError::InvalidCount);
    }
    let expected = read_le32(input, 8);
    if fnv32_range(input, 12, total_len) != expected {
        return Err(PersistError::ChecksumMismatch);
    }
    let vc = read_le16(input, 12) as usize;
    let mc = read_le16(input, 14) as usize;
    let sc = read_le16(input, 16) as usize;
    let fc = read_le16(input, 18) as usize;
    if vc > MAX_VOLUMES || mc > MAX_MOUNTS || sc > MAX_SNAPSHOTS || fc > MAX_PACKAGE_FILES {
        return Err(PersistError::InvalidCount);
    }
    let expected_payload = vc * VOLUME_REC_LEN + mc * MOUNT_REC_LEN + sc * SNAPSHOT_REC_LEN + fc * FILE_REC_LEN;
    if HEADER_LEN + expected_payload != total_len {
        return Err(PersistError::InvalidCount);
    }
    let vols = match decode_volumes(input, vc) {
        Ok(x) => x,
        Err(e) => return Err(e),
    };
    let (volumes, max_v) = vols;
    let mbase = 20 + 24 * vc;
    let (mounts, max_m) = match decode_mounts(input, &volumes, mbase, mc) {
        Ok(x) => x,
        Err(e) => return Err(e),
    };
    let sbase = mbase + 17 * mc;
    let (snapshots, max_s) = match decode_snapshots(input, &volumes, sbase, sc) {
        Ok(x) => x,
        Err(e) => return Err(e),
    };
    let fbase = sbase + 24 * sc;
    let (files, max_f) = match decode_files(input, &volumes, fbase, fc) {
        Ok(x) => x,
        Err(e) => return Err(e),
    };
    let v1 = max_v.saturating_add(1);
    let m1 = max_m.saturating_add(1);
    let s1 = max_s.saturating_add(1);
    let f1 = max_f.saturating_add(1);
    *storage = StorageDaemon {
        volumes,
        mounts,
        snapshots,
        files,
        cache: [None; CACHE_BLOCKS],
        volume_counter: if v1 > 1 { v1 } else { 1 },
        mount_counter: if m1 > 1 { m1 } else { 1 },
        snapshot_counter: if s1 > 1 { s1 } else { 1 },
        file_counter: if f1 > 1 { f1 } else { 1 },
        self_healed_events: 0,
    };
    proof { lemma_restored_invariant(*storage, input@); }
    Ok(())
}

// ----------------------------------------------------------------------------
// Round trip
// ----------------------------------------------------------------------------

/// The invariants a live storage service keeps: ids and sizes are non-zero and
/// every mount, snapshot and file names a registered volume.
pub open spec fn state_well_formed(st: StorageDaemon) -> bool {
    &&& forall|i: int| 0 <= i < MAX_VOLUMES && (#[trigger] st.volumes@[i]) is Some
        ==> st.volumes@[i]->Some_0.volume_id != 0 && st.volumes@[i]->Some_0.block_count != 0
    &&& forall|i: int| 0 <= i < MAX_MOUNTS && (#[trigger] st.mounts@[i]) is Some
        ==> st.mounts@[i]->Some_0.mount_id != 0 && st.mounts@[i]->Some_0.volume_id != 0
            && has_volume(st.volumes@, st.mounts@[i]->Some_0.volume_id)
    &&& forall|i: int| 0 <= i < MAX_SNAPSHOTS && (#[trigger] st.snapshots@[i]) is Some
        ==> st.snapshots@[i]->Some_0.snapshot_id != 0 && st.snapshots@[i]->Some_0.volume_id != 0
            && has_volume(st.volumes@, st.snapshots@[i]->Some_0.volume_id)
    &&& forall|i: int| 0 <= i < MAX_PACKAGE_FILES && (#[trigger] st.files@[i]) is Some
        ==> st.files@[i]->Some_0.file_id != 0 && st.files@[i]->Some_0.volume_id != 0
            && has_volume(st.volumes@, st.files@[i]->Some_0.volume_id)
}

/// `st2` holds the metadata of `st`, each table packed to the front, with the
/// counters continuing after the largest ids and an empty cache.
pub open spec fn restores(st2: StorageDaemon, st: StorageDaemon) -> bool {
    &&& st2.volumes@ == packed(st.volumes@)
    &&& st2.mounts@ == packed(st.mounts@)
    &&& st2.snapshots@ == packed(st.snapshots@)
    &&& st2.files@ == packed(st.files@)
    &&& forall|i: int| 0 <= i < CACHE_BLOCKS ==> (#[trigger] st2.cache@[i]) is None
    &&& st2.volume_counter == next_counter(compact(st.volumes@).map_values(|v: StorageVolume| v.volume_id))
    &&& st2.mount_counter == next_counter(compact(st.mounts@).map_values(|m: MountEntry| m.mount_id))
    &&& st2.snapshot_counter == next_counter(compact(st.snapshots@).map_values(|x: SnapshotMetadata| x.snapshot_id))
    &&& st2.file_counter == next_counter(compact(st.files@).map_values(|f: PackageFileRecord| f.file_id))
    &&& st2.self_healed_events == 0
}

proof fn lemma_sub<A>(e: Seq<A>, a: int, b: int, c: int, d: int)
    requires
        0 <= a <= c <= d <= b <= e.len(),
    ensures
        e.subrange(a, b).subrange(c - a, d - a) == e.subrange(c, d),
{
    assert(e.subrange(a, b).subrange(c - a, d - a) =~= e.subrange(c, d));
}

proof fn lemma_volume_at(e: Seq<u8>, o: int, v: StorageVolume)
    requires
        0 <= o,
        o + 24 <= e.len(),
        e.subrange(o, o + 24) == enc_volume(v),
    ensures
        dec_volume(e, o) == v,
        e[o + 4] <= 3,
{
    let r = e.subrange(o, o + 24);
    assert(e.subrange(o, o + 4) =~= le32(v.volume_id)) by { lemma_sub(e, o, o + 24, o, o + 4); assert(r.subrange(0, 4) =~= le32(v.volume_id)); }
    assert(e.subrange(o + 8, o + 16) =~= le64(v.block_count)) by { lemma_sub(e, o, o + 24, o + 8, o + 16); assert(r.subrange(8, 16) =~= le64(v.block_count)); }
    assert(e.subrange(o + 16, o + 24) =~= le64(v.start_lba)) by { lemma_sub(e, o, o + 24, o + 16, o + 24); assert(r.subrange(16, 24) =~= le64(v.start_lba)); }
    lemma_le32(v.volume_id, e, o);
    lemma_le64(v.block_count, e, o + 8);
    lemma_le64(v.start_lba, e, o + 16);
    assert(e[o + 4] == r[4]);
    assert(e[o + 5] == r[5]);
}

proof fn lemma_mount_at(e: Seq<u8>, o: int, m: MountEntry)
    requires
        0 <= o,
        o + 17 <= e.len(),
        e.subrange(o, o + 17) == enc_mount(m),
    ensures
        dec_mount(e, o) == m,
{
    let r = e.subrange(o, o + 17);
    assert(e.subrange(o, o + 4) =~= le32(m.mount_id)) by { lemma_sub(e, o, o + 17, o, o + 4); assert(r.subrange(0, 4) =~= le32(m.mount_id)); }
    assert(e.subrange(o + 4, o + 8) =~= le32(m.volume_id)) by { lemma_sub(e, o, o + 17, o + 4, o + 8); assert(r.subrange(4, 8) =~= le32(m.volume_id)); }
    assert(e.subrange(o + 8, o + 16) =~= le64(m.path_hash)) by { lemma_sub(e, o, o + 17, o + 8, o + 16); assert(r.subrange(8, 16) =~= le64(m.path_hash)); }
    lemma_le32(m.mount_id, e, o);
    lemma_le32(m.volume_id, e, o + 4);
    lemma_le64(m.path_hash, e, o + 8);
    assert(e[o + 16] == r[16]);
}

proof fn lemma_snapshot_at(e: Seq<u8>, o: int, x: SnapshotMetadata)
    requires
        0 <= o,
        o + 24 <= e.len(),
        e.subrange(o, o + 24) == enc_snapshot(x),
    ensures
        dec_snapshot(e, o) == x,
{
    let r = e.subrange(o, o + 24);
    assert(e.subrange(o, o + 4) =~= le32(x.snapshot_id)) by { lemma_sub(e, o, o + 24, o, o + 4); assert(r.subrange(0, 4) =~= le32(x.snapshot_id)); }
    assert(e.subrange(o + 4, o + 8) =~= le32(x.volume_id)) by { lemma_sub(e, o, o + 24, o + 4, o + 8); assert(r.subrange(4, 8) =~= le32(x.volume_id)); }
    assert(e.subrange(o + 8, o + 16) =~= le64(x.timestamp)) by { lemma_sub(e, o, o + 24, o + 8, o + 16); assert(r.subrange(8, 16) =~= le64(x.timestamp)); }
    assert(e.subrange(o + 16, o + 20) =~= le32(x.block_delta_count)) by { lemma_sub(e, o, o + 24, o + 16, o + 20); assert(r.subrange(16, 20) =~= le32(x.block_delta_count)); }
    lemma_le32(x.snapshot_id, e, o);
    lemma_le32(x.volume_id, e, o + 4);
    lemma_le64(x.timestamp, e, o + 8);
    lemma_le32(x.block_delta_count, e, o + 16);
}

proof fn lemma_file_at(e: Seq<u8>, o: int, f: PackageFileRecord)
    requires
        0 <= o,
        o + 21 <= e.len(),
        e.subrange(o, o + 21) == enc_file(f),
    ensures
        dec_file(e, o) == f,
{
    let r = e.subrange(o, o + 21);
    assert(e.subrange(o, o + 4) =~= le32(f.file_id)) by { lemma_sub(e, o, o + 21, o, o + 4); assert(r.subrange(0, 4) =~= le32(f.file_id)); }
    assert(e.subrange(o + 4, o + 8) =~= le32(f.volume_id)) by { lemma_sub(e, o, o + 21, o + 4, o + 8); assert(r.subrange(4, 8) =~= le32(f.volume_id)); }
    assert(e.subrange(o + 8, o + 16) =~= le64(f.name_hash)) by { lemma_sub(e, o, o + 21, o + 8, o + 16); assert(r.subrange(8, 16) =~= le64(f.name_hash)); }
    assert(e.subrange(o + 16, o + 20) =~= le32(f.size_bytes)) by { lemma_sub(e, o, o + 21, o + 16, o + 20); assert(r.subrange(16, 20) =~= le32(f.size_bytes)); }
    lemma_le32(f.file_id, e, o);
    lemma_le32(f.volume_id, e, o + 4);
    lemma_le64(f.name_hash, e, o + 8);
    lemma_le32(f.size_bytes, e, o + 16);
    assert(e[o + 20] == r[20]);
}

proof fn lemma_state_header(st: StorageDaemon)
    ensures
        state_header(st).len() == 20,
        state_header(st).subrange(0, 4) == magic_bytes(),
        state_header(st)[4] == STATE_VERSION,
        state_header(st).subrange(6, 8) == le16((HEADER_LEN + payload(st).len()) as u16),
        state_header(st).subrange(8, 12) == le32(fnv32(counts(st) + payload(st))),
        state_header(st).subrange(12, 14) == le16(compact(st.volumes@).len() as u16),
        state_header(st).subrange(14, 16) == le16(compact(st.mounts@).len() as u16),
        state_header(st).subrange(16, 18) == le16(compact(st.snapshots@).len() as u16),
        state_header(st).subrange(18, 20) == le16(compact(st.files@).len() as u16),
{
    let h = state_header(st);
    assert(h.subrange(0, 4) =~= magic_bytes());
    assert(h.subrange(6, 8) =~= le16((HEADER_LEN + payload(st).len()) as u16));
    assert(h.subrange(8, 12) =~= le32(fnv32(counts(st) + payload(st))));
    assert(h.subrange(12, 14) =~= le16(compact(st.volumes@).len() as u16));
    assert(h.subrange(14, 16) =~= le16(compact(st.mounts@).len() as u16));
    assert(h.subrange(16, 18) =~= le16(compact(st.snapshots@).len() as u16));
    assert(h.subrange(18, 20) =~= le16(compact(st.files@).len() as u16));
}

/// The header fields of an exported image.
proof fn lemma_header_fields(st: StorageDaemon)
    ensures
        encode_state(st).len() == 20 + payload(st).len(),
        encode_state(st).subrange(0, 4) == magic_bytes(),
        encode_state(st)[4] == STATE_VERSION,
        total_field(encode_state(st)) == 20 + payload(st).len(),
        rd32(encode_state(st), 8) == fnv32(counts(st) + payload(st)),
        encode_state(st).subrange(12, encode_state(st).len() as int) == counts(st) + payload(st),
        vc_field(encode_state(st)) == compact(st.volumes@).len(),
        mc_field(encode_state(st)) == compact(st.mounts@).len(),
        sc_field(encode_state(st)) == compact(st.snapshots@).len(),
        fc_field(encode_state(st)) == compact(st.files@).len(),
        encode_state(st).subrange(20, encode_state(st).len() as int) == payload(st),
{
    lemma_payload_len(st);
    lemma_state_header(st);
    let e = encode_state(st);
    let h = state_header(st);
    assert(e.subrange(0, 20) =~= h);
    lemma_sub(e, 0, 20, 0, 4);
    lemma_sub(e, 0, 20, 6, 8);
    lemma_sub(e, 0, 20, 8, 12);
    lemma_sub(e, 0, 20, 12, 14);
    lemma_sub(e, 0, 20, 14, 16);
    lemma_sub(e, 0, 20, 16, 18);
    lemma_sub(e, 0, 20, 18, 20);
    assert(e[4] == h[4]);
    lemma_le16((HEADER_LEN + payload(st).len()) as u16, e, 6);
    lemma_le32(fnv32(counts(st) + payload(st)), e, 8);
    lemma_le16(compact(st.volumes@).len() as u16, e, 12);
    lemma_le16(compact(st.mounts@).len() as u16, e, 14);
    lemma_le16(compact(st.snapshots@).len() as u16, e, 16);
    lemma_le16(compact(st.files@).len() as u16, e, 18);
    assert(e.subrange(20, e.len() as int) =~= payload(st));
    assert(e.subrange(12, e.len() as int) =~= counts(st) + payload(st));
}

/// Where each table's records sit inside an exported image.
proof fn lemma_record_areas(st: StorageDaemon)
    ensures
        ({
            let e = encode_state(st);
            let vc = compact(st.volumes@).len() as int;
            let mc = compact(st.mounts@).len() as int;
            let sc = compact(st.snapshots@).len() as int;
            let fc = compact(st.files@).len() as int;
            &&& e.subrange(20, 20 + 24 * vc) == volume_recs(st)
            &&& e.subrange(20 + 24 * vc, 20 + 24 * vc + 17 * mc) == mount_recs(st)
            &&& e.subrange(20 + 24 * vc + 17 * mc, 20 + 24 * vc + 17 * mc + 24 * sc) == snapshot_recs(st)
            &&& e.subrange(20 + 24 * vc + 17 * mc + 24 * sc, 20 + 24 * vc + 17 * mc + 24 * sc + 21 * fc) == file_recs(st)
        }),
{
    lemma_payload_len(st);
    lemma_record_lens();
    lemma_enc_all_len(compact(st.volumes@), volume_enc(), 24);
    lemma_enc_all_len(compact(st.mounts@), mount_enc(), 17);
    lemma_enc_all_len(compact(st.snapshots@), snapshot_enc(), 24);
    lemma_enc_all_len(compact(st.files@), file_enc(), 21);
    let e = encode_state(st);
    let vc = compact(st.volumes@).len() as int;
    let mc = compact(st.mounts@).len() as int;
    let sc = compact(st.snapshots@).len() as int;
    let fc = compact(st.files@).len() as int;
    assert(e.subrange(20, 20 + 24 * vc) =~= volume_recs(st));
    assert(e.subrange(20 + 24 * vc, 20 + 24 * vc + 17 * mc) =~= mount_recs(st));
    assert(e.subrange(20 + 24 * vc + 17 * mc, 20 + 24 * vc + 17 * mc + 24 * sc) =~= snapshot_recs(st));
    assert(e.subrange(20 + 24 * vc + 17 * mc + 24 * sc, 20 + 24 * vc + 17 * mc + 24 * sc + 21 * fc) =~= file_recs(st));
}

proof fn lemma_packed_has_volume(s: Seq<Option<StorageVolume>>, id: u32)
    ensures
        has_volume(packed(s), id) == has_volume(s, id),
{
    lemma_compact_members(s);
    lemma_compact_len(s);
    if has_volume(s, id) {
        let i = choose|i: int| 0 <= i < s.len() && vol_is(#[trigger] s[i], id);
        let j = choose|j: int| 0 <= j < compact(s).len() && compact(s)[j] == s[i]->Some_0;
        assert(vol_is(packed(s)[j], id));
    }
    if has_volume(packed(s), id) {
        let j = choose|j: int| 0 <= j < packed(s).len() && vol_is(#[trigger] packed(s)[j], id);
        let i = choose|i: int| 0 <= i < s.len() && s[i] == Some(#[trigger] compact(s)[j]);
        assert(vol_is(s[i], id));
    }
}

proof fn lemma_volume_k(st: StorageDaemon, k: int)
    requires
        0 <= k < compact(st.volumes@).len(),
    ensures
        dec_volume(encode_state(st), vol_off(encode_state(st), k)) == compact(st.volumes@)[k],
        encode_state(st)[vol_off(encode_state(st), k) + 4] <= 3,
{
    lemma_header_fields(st);
    lemma_record_areas(st);
    lemma_record_lens();
    lemma_payload_len(st);
    let e = encode_state(st);
    let c = compact(st.volumes@);
    let vc = c.len() as int;
    lemma_enc_all_at(c, volume_enc(), 24, k);
    lemma_sub(e, 20, 20 + 24 * vc, 20 + 24 * k, 20 + 24 * k + 24);
    lemma_volume_at(e, 20 + 24 * k, c[k]);
}

proof fn lemma_volumes_decode(st: StorageDaemon)
    requires
        state_well_formed(st),
    ensures
        decoded_volumes(encode_state(st)) == packed(st.volumes@),
        forall|k: int| 0 <= k < vc_field(encode_state(st)) ==> #[trigger] volume_rec_ok(encode_state(st), k),
        ids_at(encode_state(st), 20, 24, vc_field(encode_state(st))) == compact(st.volumes@).map_values(|v: StorageVolume| v.volume_id),
{
    lemma_header_fields(st);
    lemma_compact_members(st.volumes@);
    lemma_compact_len(st.volumes@);
    let e = encode_state(st);
    let c = compact(st.volumes@);
    let vc = c.len() as int;
    assert forall|k: int| 0 <= k < vc implies #[trigger] volume_rec_ok(e, k) by {
        lemma_volume_k(st, k);
        let i = choose|i: int| 0 <= i < st.volumes@.len() && st.volumes@[i] == Some(#[trigger] c[k]);
        assert(st.volumes@[i] is Some);
    }
    assert forall|k: int| 0 <= k < MAX_VOLUMES implies #[trigger] decoded_volumes(e)[k] == packed(st.volumes@)[k] by {
        if k < vc {
            lemma_volume_k(st, k);
        }
    }
    assert(decoded_volumes(e) =~= packed(st.volumes@));
    assert forall|k: int| 0 <= k < vc implies #[trigger] ids_at(e, 20, 24, vc)[k] == c.map_values(|v: StorageVolume| v.volume_id)[k] by {
        lemma_volume_k(st, k);
    }
    assert(ids_at(e, 20, 24, vc) =~= c.map_values(|v: StorageVolume| v.volume_id));
}

proof fn lemma_mount_k(st: StorageDaemon, k: int)
    requires
        0 <= k < compact(st.mounts@).len(),
    ensures
        dec_mount(encode_state(st), mount_off(encode_state(st), k)) == compact(st.mounts@)[k],
{
    lemma_header_fields(st);
    lemma_record_areas(st);
    lemma_record_lens();
    lemma_payload_len(st);
    let e = encode_state(st);
    let c = compact(st.mounts@);
    let a = mount_off(e, 0);
    lemma_enc_all_at(c, mount_enc(), 17, k);
    lemma_sub(e, a, a + 17 * c.len(), a + 17 * k, a + 17 * k + 17);
    lemma_mount_at(e, a + 17 * k, c[k]);
}

proof fn lemma_mount_decode(st: StorageDaemon)
    requires
        state_well_formed(st),
    ensures
        decoded_mounts(encode_state(st)) == packed(st.mounts@),
        forall|k: int| 0 <= k < mc_field(encode_state(st)) ==> #[trigger] ref_rec_ok(encode_state(st), mount_off(encode_state(st), k)),
        ids_at(encode_state(st), mount_off(encode_state(st), 0), 17, mc_field(encode_state(st))) == compact(st.mounts@).map_values(|x: MountEntry| x.mount_id),
{
    lemma_header_fields(st);
    lemma_volumes_decode(st);
    lemma_compact_members(st.mounts@);
    lemma_compact_len(st.mounts@);
    let e = encode_state(st);
    let c = compact(st.mounts@);
    let n = c.len() as int;
    assert forall|k: int| 0 <= k < n implies #[trigger] ref_rec_ok(e, mount_off(e, k)) by {
        lemma_mount_k(st, k);
        let i = choose|i: int| 0 <= i < st.mounts@.len() && st.mounts@[i] == Some(#[trigger] c[k]);
        assert(st.mounts@[i] is Some);
        lemma_packed_has_volume(st.volumes@, c[k].volume_id);
    }
    assert forall|k: int| 0 <= k < MAX_MOUNTS implies #[trigger] decoded_mounts(e)[k] == packed(st.mounts@)[k] by {
        if k < n {
            lemma_mount_k(st, k);
        }
    }
    assert(decoded_mounts(e) =~= packed(st.mounts@));
    assert forall|k: int| 0 <= k < n implies #[trigger] ids_at(e, mount_off(e, 0), 17, n)[k] == c.map_values(|x: MountEntry| x.mount_id)[k] by {
        lemma_mount_k(st, k);
        assert(mount_off(e, 0) + 17 * k == mount_off(e, k));
    }
    assert(ids_at(e, mount_off(e, 0), 17, n) =~= c.map_values(|x: MountEntry| x.mount_id));
}

proof fn lemma_snapshot_k(st: StorageDaemon, k: int)
    requires
        0 <= k < compact(st.snapshots@).len(),
    ensures
        dec_snapshot(encode_state(st), snap_off(encode_state(st), k)) == compact(st.snapshots@)[k],
{
    lemma_header_fields(st);
    lemma_record_areas(st);
    lemma_record_lens();
    lemma_payload_len(st);
    let e = encode_state(st);
    let c = compact(st.snapshots@);
    let a = snap_off(e, 0);
    lemma_enc_all_at(c, snapshot_enc(), 24, k);
    lemma_sub(e, a, a + 24 * c.len(), a + 24 * k, a + 24 * k + 24);
    lemma_snapshot_at(e, a + 24 * k, c[k]);
}

proof fn lemma_snapshot_decode(st: StorageDaemon)
    requires
        state_well_formed(st),
    ensures
        decoded_snapshots(encode_state(st)) == packed(st.snapshots@),
        forall|k: int| 0 <= k < sc_field(encode_state(st)) ==> #[trigger] ref_rec_ok(encode_state(st), snap_off(encode_state(st), k)),
        ids_at(encode_state(st), snap_off(encode_state(st), 0), 24, sc_field(encode_state(st))) == compact(st.snapshots@).map_values(|x: SnapshotMetadata| x.snapshot_id),
{
    lemma_header_fields(st);
    lemma_volumes_decode(st);
    lemma_compact_members(st.snapshots@);
    lemma_compact_len(st.snapshots@);
    let e = encode_state(st);
    let c = compact(st.snapshots@);
    let n = c.len() as int;
    assert forall|k: int| 0 <= k < n implies #[trigger] ref_rec_ok(e, snap_off(e, k)) by {
        lemma_snapshot_k(st, k);
        let i = choose|i: int| 0 <= i < st.snapshots@.len() && st.snapshots@[i] == Some(#[trigger] c[k]);
        assert(st.snapshots@[i] is Some);
        lemma_packed_has_volume(st.volumes@, c[k].volume_id);
    }
    assert forall|k: int| 0 <= k < MAX_SNAPSHOTS implies #[trigger] decoded_snapshots(e)[k] == packed(st.snapshots@)[k] by {
        if k < n {
            lemma_snapshot_k(st, k);
        }
    }
    assert(decoded_snapshots(e) =~= packed(st.snapshots@));
    assert forall|k: int| 0 <= k < n implies #[trigger] ids_at(e, snap_off(e, 0), 24, n)[k] == c.map_values(|x: SnapshotMetadata| x.snapshot_id)[k] by {
        lemma_snapshot_k(st, k);
        assert(snap_off(e, 0) + 24 * k == snap_off(e, k));
    }
    assert(ids_at(e, snap_off(e, 0), 24, n) =~= c.map_values(|x: SnapshotMetadata| x.snapshot_id));
}

proof fn lemma_file_k(st: StorageDaemon, k: int)
    requires
        0 <= k < compact(st.files@).len(),
    ensures
        dec_file(encode_state(st), file_off(encode_state(st), k)) == compact(st.files@)[k],
{
    lemma_header_fields(st);
    lemma_record_areas(st);
    lemma_record_lens();
    lemma_payload_len(st);
    let e = encode_state(st);
    let c = compact(st.files@);
    let a = file_off(e, 0);
    lemma_enc_all_at(c, file_enc(), 21, k);
    lemma_sub(e, a, a + 21 * c.len(), a + 21 * k, a + 21 * k + 21);
    lemma_file_at(e, a + 21 * k, c[k]);
}

proof fn lemma_file_decode(st: StorageDaemon)
    requires
        state_well_formed(st),
    ensures
        decoded_files(encode_state(st)) == packed(st.files@),
        forall|k: int| 0 <= k < fc_field(encode_state(st)) ==> #[trigger] ref_rec_ok(encode_state(st), file_off(encode_state(st), k)),
        ids_at(encode_state(st), file_off(encode_state(st), 0), 21, fc_field(encode_state(st))) == compact(st.files@).map_values(|x: PackageFileRecord| x.file_id),
{
    lemma_header_fields(st);
    lemma_volumes_decode(st);
    lemma_compact_members(st.files@);
    lemma_compact_len(st.files@);
    let e = encode_state(st);
    let c = compact(st.files@);
    let n = c.len() as int;
    assert forall|k: int| 0 <= k < n implies #[trigger] ref_rec_ok(e, file_off(e, k)) by {
        lemma_file_k(st, k);
        let i = choose|i: int| 0 <= i < st.files@.len() && st.files@[i] == Some(#[trigger] c[k]);
        assert(st.files@[i] is Some);
        lemma_packed_has_volume(st.volumes@, c[k].volume_id);
    }
    assert forall|k: int| 0 <= k < MAX_PACKAGE_FILES implies #[trigger] decoded_files(e)[k] == packed(st.files@)[k] by {
        if k < n {
            lemma_file_k(st, k);
        }
    }
    assert(decoded_files(e) =~= packed(st.files@));
    assert forall|k: int| 0 <= k < n implies #[trigger] ids_at(e, file_off(e, 0), 21, n)[k] == c.map_values(|x: PackageFileRecord| x.file_id)[k] by {
        lemma_file_k(st, k);
        assert(file_off(e, 0) + 21 * k == file_off(e, k));
    }
    assert(ids_at(e, file_off(e, 0), 21, n) =~= c.map_values(|x: PackageFileRecord| x.file_id));
}

/// Importing an exported image of a well-formed service succeeds and restores
/// its volume, mount, snapshot and package-file tables (each packed to the
/// front of its table), with counters that continue after the largest ids.
pub proof fn lemma_export_import_round_trip(st: StorageDaemon)
    requires
        state_well_formed(st),
    ensures
        import_outcome(encode_state(st)) == Ok::<(), PersistError>(()),
        forall|st2: StorageDaemon| restored(st2, encode_state(st)) ==> restores(st2, st),
{
    lemma_header_fields(st);
    lemma_payload_len(st);
    lemma_volumes_decode(st);
    lemma_mount_decode(st);
    lemma_snapshot_decode(st);
    lemma_file_decode(st);
    let e = encode_state(st);
    assert(e.subrange(12, total_field(e)) == counts(st) + payload(st));
    assert(records_ok(e));
}


/// Every service state reached through the operations, once each registered
/// volume has a non-zero block count, exports to an image that imports
/// back: the import succeeds and restores the metadata, packed, with fresh
/// counters and an empty cache.
pub proof fn lemma_service_state_round_trip(st: StorageDaemon)
    requires
        storage_invariant(st),
        volumes_sized(st),
    ensures
        state_well_formed(st),
        import_outcome(encode_state(st)) == Ok::<(), PersistError>(()),
        forall|st2: StorageDaemon| restored(st2, encode_state(st)) ==> restores(st2, st),
{
    assert forall|i: int| 0 <= i < MAX_MOUNTS && (#[trigger] st.mounts@[i]) is Some
        implies st.mounts@[i]->Some_0.volume_id != 0 && has_volume(st.volumes@, st.mounts@[i]->Some_0.volume_id) by {}
    assert(state_well_formed(st));
    lemma_export_import_round_trip(st);
}


/// A state restored from an accepted image keeps the service's invariant,
/// and each of its volumes has a non-zero block count.
proof fn lemma_restored_invariant(st: StorageDaemon, s: Seq<u8>)
    requires
        import_outcome(s) == Ok::<(), PersistError>(()),
        restored(st, s),
    ensures
        storage_invariant(st),
        volumes_sized(st),
{
    assert(records_ok(s));
    assert forall|i: int| 0 <= i < MAX_VOLUMES && (#[trigger] st.volumes@[i]) is Some
        implies st.volumes@[i]->Some_0.volume_id != 0 && st.volumes@[i]->Some_0.block_count != 0 by {
        assert(volume_rec_ok(s, i));
    }
    assert forall|i: int| 0 <= i < MAX_MOUNTS && (#[trigger] st.mounts@[i]) is Some
        implies st.mounts@[i]->Some_0.mount_id != 0 && names_volume(st.volumes@, st.mounts@[i]->Some_0.volume_id) by {
        assert(ref_rec_ok(s, mount_off(s, i)));
    }
    assert forall|i: int| 0 <= i < MAX_SNAPSHOTS && (#[trigger] st.snapshots@[i]) is Some
        implies st.snapshots@[i]->Some_0.snapshot_id != 0 && names_volume(st.volumes@, st.snapshots@[i]->Some_0.volume_id) by {
        assert(ref_rec_ok(s, snap_off(s, i)));
    }
    assert forall|i: int| 0 <= i < MAX_PACKAGE_FILES && (#[trigger] st.files@[i]) is Some
        implies st.files@[i]->Some_0.file_id != 0 && names_volume(st.volumes@, st.files@[i]->Some_0.volume_id) by {
        assert(ref_rec_ok(s, file_off(s, i)));
    }
}

} // verus!

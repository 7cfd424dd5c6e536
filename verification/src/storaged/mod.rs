//! Storage service: volume table, mount table, snapshots, package-file
//! records and a write-back block cache, all bounded.

pub mod persistence;

use vstd::prelude::*;
use crate::table::{all_full, find_free, is_first_free};

verus! {

pub const MAX_VOLUMES: usize = 16;
pub const MAX_MOUNTS: usize = 16;
pub const MAX_SNAPSHOTS: usize = 8;
pub const MAX_PACKAGE_FILES: usize = 32;
pub const BLOCK_SIZE: usize = 512;
pub const CACHE_BLOCKS: usize = 32;

#[derive(Debug, Clone, Copy, PartialEq, Eq, Structural)]
pub enum VolumeType {
    Ramdisk,
    GptPartition,
    VirtualDisk,
    AweFsVolume,
}

#[derive(Debug, Clone, Copy, PartialEq, Eq, Structural)]
pub struct PackageFileRecord {
    pub file_id: u32,
    pub volume_id: u32,
    pub name_hash: u64,
    pub size_bytes: u32,
    pub is_installed_package: bool,
}

#[derive(Debug, Clone, Copy, PartialEq, Eq, Structural)]
pub struct StorageVolume {
    pub volume_id: u32,
    pub volume_type: VolumeType,
    pub block_count: u64,
    pub start_lba: u64,
    pub read_only: bool,
}

#[derive(Debug, Clone, Copy, PartialEq, Eq, Structural)]
pub struct MountEntry {
    pub mount_id: u32,
    pub volume_id: u32,
    pub path_hash: u64,
    pub active: bool,
}

#[derive(Debug, Clone, Copy, PartialEq, Eq, Structural)]
pub struct SnapshotMetadata {
    pub snapshot_id: u32,
    pub volume_id: u32,
    pub timestamp: u64,
    pub block_delta_count: u32,
}

#[derive(Debug, Clone, Copy)]
pub struct CachedBlock {
    pub volume_id: u32,
    pub lba: u64,
    pub dirty: bool,
    pub data: [u8; BLOCK_SIZE],
}

pub struct StorageDaemon {
    pub volumes: [Option<StorageVolume>; MAX_VOLUMES],
    pub mounts: [Option<MountEntry>; MAX_MOUNTS],
    pub snapshots: [Option<SnapshotMetadata>; MAX_SNAPSHOTS],
    pub files: [Option<PackageFileRecord>; MAX_PACKAGE_FILES],
    pub cache: [Option<CachedBlock>; CACHE_BLOCKS],
    pub volume_counter: u32,
    pub mount_counter: u32,
    pub snapshot_counter: u32,
    pub file_counter: u32,
    pub self_healed_events: usize,
}

pub open spec fn vol_is(o: Option<StorageVolume>, id: u32) -> bool {
    o matches Some(v) && v.volume_id == id
}

pub open spec fn snap_of(o: Option<SnapshotMetadata>, id: u32) -> bool {
    o matches Some(s) && s.volume_id == id
}

pub open spec fn block_is(o: Option<CachedBlock>, vid: u32, lba: u64) -> bool {
    o matches Some(b) && b.volume_id == vid && b.lba == lba
}

pub open spec fn file_is(o: Option<PackageFileRecord>, id: u32) -> bool {
    o matches Some(f) && f.file_id == id
}

/// Some slot of `vols` holds the volume `id`.
pub open spec fn has_volume(vols: Seq<Option<StorageVolume>>, id: u32) -> bool {
    exists|i: int| 0 <= i < vols.len() && vol_is(#[trigger] vols[i], id)
}

/// Some slot of `snaps` holds a snapshot of volume `id`.
pub open spec fn has_snapshot_of(snaps: Seq<Option<SnapshotMetadata>>, id: u32) -> bool {
    exists|i: int| 0 <= i < snaps.len() && snap_of(#[trigger] snaps[i], id)
}

/// `i` is the first cache slot holding block (`vid`, `lba`).
pub open spec fn is_cached_at(cache: Seq<Option<CachedBlock>>, vid: u32, lba: u64, i: int) -> bool {
    &&& 0 <= i < cache.len()
    &&& block_is(cache[i], vid, lba)
    &&& forall|j: int| 0 <= j < i ==> !block_is(#[trigger] cache[j], vid, lba)
}

pub open spec fn is_cached(cache: Seq<Option<CachedBlock>>, vid: u32, lba: u64) -> bool {
    exists|i: int| is_cached_at(cache, vid, lba, i)
}

/// `i` is the first file slot holding file `id`.
pub open spec fn is_file_at(files: Seq<Option<PackageFileRecord>>, id: u32, i: int) -> bool {
    &&& 0 <= i < files.len()
    &&& file_is(files[i], id)
    &&& forall|j: int| 0 <= j < i ==> !file_is(#[trigger] files[j], id)
}

pub open spec fn has_file(files: Seq<Option<PackageFileRecord>>, id: u32) -> bool {
    exists|i: int| 0 <= i < files.len() && file_is(#[trigger] files[i], id)
}

/// `id` names a registered volume (ids are never zero).
pub open spec fn names_volume(vols: Seq<Option<StorageVolume>>, id: u32) -> bool {
    id != 0 && has_volume(vols, id)
}

/// What every operation of the service keeps: the id counters never reach
/// zero, no record has id zero, and every mount, snapshot and file names a
/// registered volume.
pub open spec fn storage_invariant(st: StorageDaemon) -> bool {
    &&& st.volume_counter >= 1 && st.mount_counter >= 1
    &&& st.snapshot_counter >= 1 && st.file_counter >= 1
    &&& forall|i: int| 0 <= i < MAX_VOLUMES && (#[trigger] st.volumes@[i]) is Some
        ==> st.volumes@[i]->Some_0.volume_id != 0
    &&& forall|i: int| 0 <= i < MAX_MOUNTS && (#[trigger] st.mounts@[i]) is Some
        ==> st.mounts@[i]->Some_0.mount_id != 0 && names_volume(st.volumes@, st.mounts@[i]->Some_0.volume_id)
    &&& forall|i: int| 0 <= i < MAX_SNAPSHOTS && (#[trigger] st.snapshots@[i]) is Some
        ==> st.snapshots@[i]->Some_0.snapshot_id != 0 && names_volume(st.volumes@, st.snapshots@[i]->Some_0.volume_id)
    &&& forall|i: int| 0 <= i < MAX_PACKAGE_FILES && (#[trigger] st.files@[i]) is Some
        ==> st.files@[i]->Some_0.file_id != 0 && names_volume(st.volumes@, st.files@[i]->Some_0.volume_id)
}

/// Every registered volume has a non-zero block count.
pub open spec fn volumes_sized(st: StorageDaemon) -> bool {
    forall|i: int| 0 <= i < MAX_VOLUMES && (#[trigger] st.volumes@[i]) is Some
        ==> st.volumes@[i]->Some_0.block_count != 0
}

/// Filling an empty volume slot keeps every registered volume registered.
proof fn lemma_volume_added(vols: Seq<Option<StorageVolume>>, i: int, v: StorageVolume, id: u32)
    requires
        0 <= i < vols.len(),
        vols[i] is None,
        has_volume(vols, id),
    ensures
        has_volume(vols.update(i, Some(v)), id),
{
    let k = choose|k: int| 0 <= k < vols.len() && vol_is(#[trigger] vols[k], id);
    assert(vol_is(vols.update(i, Some(v))[k], id));
}

impl StorageDaemon {
    /// Everything but the volume table and its counter is as in `old`.
    pub open spec fn same_except_volumes(self, old: Self) -> bool {
        &&& self.mounts == old.mounts && self.snapshots == old.snapshots
        &&& self.files == old.files && self.cache == old.cache
        &&& self.mount_counter == old.mount_counter && self.snapshot_counter == old.snapshot_counter
        &&& self.file_counter == old.file_counter && self.self_healed_events == old.self_healed_events
    }

    pub open spec fn same_except_mounts(self, old: Self) -> bool {
        &&& self.volumes == old.volumes && self.snapshots == old.snapshots
        &&& self.files == old.files && self.cache == old.cache
        &&& self.volume_counter == old.volume_counter && self.snapshot_counter == old.snapshot_counter
        &&& self.file_counter == old.file_counter && self.self_healed_events == old.self_healed_events
    }

    pub open spec fn same_except_snapshots(self, old: Self) -> bool {
        &&& self.volumes == old.volumes && self.mounts == old.mounts
        &&& self.files == old.files && self.cache == old.cache
        &&& self.volume_counter == old.volume_counter && self.mount_counter == old.mount_counter
        &&& self.file_counter == old.file_counter && self.self_healed_events == old.self_healed_events
    }

    pub open spec fn same_except_files(self, old: Self) -> bool {
        &&& self.volumes == old.volumes && self.mounts == old.mounts
        &&& self.snapshots == old.snapshots && self.cache == old.cache
        &&& self.volume_counter == old.volume_counter && self.mount_counter == old.mount_counter
        &&& self.snapshot_counter == old.snapshot_counter && self.self_healed_events == old.self_healed_events
    }

    pub open spec fn same_except_cache(self, old: Self) -> bool {
        &&& self.volumes == old.volumes && self.mounts == old.mounts
        &&& self.snapshots == old.snapshots && self.files == old.files
        &&& self.volume_counter == old.volume_counter && self.mount_counter == old.mount_counter
        &&& self.snapshot_counter == old.snapshot_counter && self.file_counter == old.file_counter
        &&& self.self_healed_events == old.self_healed_events
    }

    pub fn new() -> (s: Self)
        ensures
            forall|i: int| 0 <= i < MAX_VOLUMES ==> (#[trigger] s.volumes@[i]) is None,
            forall|i: int| 0 <= i < MAX_MOUNTS ==> (#[trigger] s.mounts@[i]) is None,
            forall|i: int| 0 <= i < MAX_SNAPSHOTS ==> (#[trigger] s.snapshots@[i]) is None,
            forall|i: int| 0 <= i < MAX_PACKAGE_FILES ==> (#[trigger] s.files@[i]) is None,
            forall|i: int| 0 <= i < CACHE_BLOCKS ==> (#[trigger] s.cache@[i]) is None,
            s.volume_counter == 1 && s.mount_counter == 1 && s.snapshot_counter == 1,
            s.file_counter == 1 && s.self_healed_events == 0,
            storage_invariant(s),
    {
        StorageDaemon {
            volumes: [None; MAX_VOLUMES],
            mounts: [None; MAX_MOUNTS],
            snapshots: [None; MAX_SNAPSHOTS],
            files: [None; MAX_PACKAGE_FILES],
            cache: [None; CACHE_BLOCKS],
            volume_counter: 1,
            mount_counter: 1,
            snapshot_counter: 1,
            file_counter: 1,
            self_healed_events: 0,
        }
    }

    /// Whether a volume with this id is registered.
    pub fn volume_exists(&self, volume_id: u32) -> (r: bool)
        ensures
            r == has_volume(self.volumes@, volume_id),
    {
        let mut i: usize = 0;
        while i < MAX_VOLUMES
            invariant
                self.volumes@.len() == MAX_VOLUMES,
                i <= MAX_VOLUMES,
                forall|j: int| 0 <= j < i ==> !vol_is(#[trigger] self.volumes@[j], volume_id),
            decreases MAX_VOLUMES - i,
        {
            if let Some(v) = self.volumes[i] {
                if v.volume_id == volume_id {
                    return true;
                }
            }
            i += 1;
        }
        false
    }

    pub fn register_volume(&mut self, vol_type: VolumeType, block_count: u64, start_lba: u64, read_only: bool) -> (r: Result<u32, &'static str>)
        ensures
            match r {
                Ok(vid) => {
                    &&& vid == old(self).volume_counter
                    &&& exists|i: int| is_first_free(old(self).volumes@, i) && final(self).volumes@ == old(self).volumes@.update(i, Some(StorageVolume { volume_id: vid, volume_type: vol_type, block_count, start_lba, read_only }))
                    &&& final(self).volume_counter == old(self).volume_counter.saturating_add(1)
                    &&& final(self).same_except_volumes(*old(self))
                },
                Err(e) => e == "Volume table full" && all_full(old(self).volumes@) && *final(self) == *old(self),
            },
            storage_invariant(*old(self)) ==> storage_invariant(*final(self)),
    {
        let vid = self.volume_counter;
        match find_free(&self.volumes) {
            Some(i) => {
                let v = StorageVolume { volume_id: vid, volume_type: vol_type, block_count, start_lba, read_only };
                let ghost vols = self.volumes@;
                self.volumes[i] = Some(v);
                self.volume_counter = self.volume_counter.saturating_add(1);
                proof {
                    if storage_invariant(*old(self)) {
                        assert forall|id: u32| names_volume(vols, id) implies names_volume(self.volumes@, id) by {
                            lemma_volume_added(vols, i as int, v, id);
                        }
                        assert forall|k: int| 0 <= k < MAX_MOUNTS && (#[trigger] self.mounts@[k]) is Some
                            implies names_volume(self.volumes@, self.mounts@[k]->Some_0.volume_id) by {
                            assert(names_volume(vols, self.mounts@[k]->Some_0.volume_id));
                        }
                        assert forall|k: int| 0 <= k < MAX_SNAPSHOTS && (#[trigger] self.snapshots@[k]) is Some
                            implies names_volume(self.volumes@, self.snapshots@[k]->Some_0.volume_id) by {
                            assert(names_volume(vols, self.snapshots@[k]->Some_0.volume_id));
                        }
                        assert forall|k: int| 0 <= k < MAX_PACKAGE_FILES && (#[trigger] self.files@[k]) is Some
                            implies names_volume(self.volumes@, self.files@[k]->Some_0.volume_id) by {
                            assert(names_volume(vols, self.files@[k]->Some_0.volume_id));
                        }
                    }
                }
                Ok(vid)
            },
            None => Err("Volume table full"),
        }
    }

    pub fn mount_volume(&mut self, volume_id: u32, path_hash: u64) -> (r: Result<u32, &'static str>)
        ensures
            match r {
                Ok(mid) => {
                    &&& has_volume(old(self).volumes@, volume_id)
                    &&& mid == old(self).mount_counter
                    &&& exists|i: int| is_first_free(old(self).mounts@, i) && final(self).mounts@ == old(self).mounts@.update(i, Some(MountEntry { mount_id: mid, volume_id, path_hash, active: true }))
                    &&& final(self).mount_counter == old(self).mount_counter.saturating_add(1)
                    &&& final(self).same_except_mounts(*old(self))
                },
                Err(e) => (if !has_volume(old(self).volumes@, volume_id) { e == "Volume ID not found" } else { e == "Mount table full" && all_full(old(self).mounts@) })
                    && *final(self) == *old(self),
            },
            storage_invariant(*old(self)) ==> storage_invariant(*final(self)),
    {
        if !self.volume_exists(volume_id) {
            return Err("Volume ID not found");
        }
        let mid = self.mount_counter;
        match find_free(&self.mounts) {
            Some(i) => {
                self.mounts[i] = Some(MountEntry { mount_id: mid, volume_id, path_hash, active: true });
                self.mount_counter = self.mount_counter.saturating_add(1);
                Ok(mid)
            },
            None => Err("Mount table full"),
        }
    }

    pub fn create_snapshot(&mut self, volume_id: u32, timestamp: u64) -> (r: Result<u32, &'static str>)
        ensures
            match r {
                Ok(sid) => {
                    &&& has_volume(old(self).volumes@, volume_id)
                    &&& sid == old(self).snapshot_counter
                    &&& exists|i: int| is_first_free(old(self).snapshots@, i) && final(self).snapshots@ == old(self).snapshots@.update(i, Some(SnapshotMetadata { snapshot_id: sid, volume_id, timestamp, block_delta_count: 0 }))
                    &&& final(self).snapshot_counter == old(self).snapshot_counter.saturating_add(1)
                    &&& final(self).same_except_snapshots(*old(self))
                },
                Err(e) => (if !has_volume(old(self).volumes@, volume_id) { e == "Volume ID not found" } else { e == "Snapshot table full" && all_full(old(self).snapshots@) })
                    && *final(self) == *old(self),
            },
            storage_invariant(*old(self)) ==> storage_invariant(*final(self)),
    {
        if !self.volume_exists(volume_id) {
            return Err("Volume ID not found");
        }
        let sid = self.snapshot_counter;
        match find_free(&self.snapshots) {
            Some(i) => {
                self.snapshots[i] = Some(SnapshotMetadata { snapshot_id: sid, volume_id, timestamp, block_delta_count: 0 });
                self.snapshot_counter = self.snapshot_counter.saturating_add(1);
                Ok(sid)
            },
            None => Err("Snapshot table full"),
        }
    }

    fn find_cached(&self, volume_id: u32, lba: u64) -> (r: Option<usize>)
        ensures
            match r {
                Some(i) => is_cached_at(self.cache@, volume_id, lba, i as int),
                None => !is_cached(self.cache@, volume_id, lba),
            },
    {
        let mut i: usize = 0;
        while i < CACHE_BLOCKS
            invariant
                self.cache@.len() == CACHE_BLOCKS,
                i <= CACHE_BLOCKS,
                forall|j: int| 0 <= j < i ==> !block_is(#[trigger] self.cache@[j], volume_id, lba),
            decreases CACHE_BLOCKS - i,
        {
            if let Some(b) = &self.cache[i] {
                if b.volume_id == volume_id && b.lba == lba {
                    return Some(i);
                }
            }
            i += 1;
        }
        None
    }

    /// The cached contents of block (`volume_id`, `lba`), if it is cached.
    pub fn cache_read(&self, volume_id: u32, lba: u64) -> (r: Option<&[u8; BLOCK_SIZE]>)
        ensures
            match r {
                Some(d) => exists|i: int| is_cached_at(self.cache@, volume_id, lba, i) && *d == self.cache@[i]->Some_0.data,
                None => !is_cached(self.cache@, volume_id, lba),
            },
    {
        match self.find_cached(volume_id, lba) {
            Some(i) => {
                match &self.cache[i] {
                    Some(b) => Some(&b.data),
                    None => None,
                }
            },
            None => None,
        }
    }

    /// Writes a block into the cache (marking it dirty), reusing its slot
    /// when the block is already cached.
    pub fn cache_write(&mut self, volume_id: u32, lba: u64, data: &[u8; BLOCK_SIZE]) -> (r: Result<(), &'static str>)
        ensures
            match r {
                Ok(()) => {
                    &&& final(self).same_except_cache(*old(self))
                    &&& if is_cached(old(self).cache@, volume_id, lba) {
                        exists|i: int| is_cached_at(old(self).cache@, volume_id, lba, i) && final(self).cache@ == old(self).cache@.update(i, Some(CachedBlock { volume_id, lba, dirty: true, data: *data }))
                    } else {
                        exists|i: int| is_first_free(old(self).cache@, i) && final(self).cache@ == old(self).cache@.update(i, Some(CachedBlock { volume_id, lba, dirty: true, data: *data }))
                    }
                },
                Err(e) => e == "Block cache full" && !is_cached(old(self).cache@, volume_id, lba) && all_full(old(self).cache@) && *final(self) == *old(self),
            },
            storage_invariant(*old(self)) ==> storage_invariant(*final(self)),
    {
        match self.find_cached(volume_id, lba) {
            Some(i) => {
                self.cache[i] = Some(CachedBlock { volume_id, lba, dirty: true, data: *data });
                Ok(())
            },
            None => {
                match find_free(&self.cache) {
                    Some(i) => {
                        self.cache[i] = Some(CachedBlock { volume_id, lba, dirty: true, data: *data });
                        Ok(())
                    },
                    None => Err("Block cache full"),
                }
            },
        }
    }

    pub fn store_package_file(&mut self, volume_id: u32, name_hash: u64, size_bytes: u32) -> (r: Result<u32, &'static str>)
        ensures
            match r {
                Ok(fid) => {
                    &&& has_volume(old(self).volumes@, volume_id)
                    &&& fid == old(self).file_counter
                    &&& exists|i: int| is_first_free(old(self).files@, i) && final(self).files@ == old(self).files@.update(i, Some(PackageFileRecord { file_id: fid, volume_id, name_hash, size_bytes, is_installed_package: true }))
                    &&& final(self).file_counter == old(self).file_counter.saturating_add(1)
                    &&& final(self).same_except_files(*old(self))
                },
                Err(e) => (if !has_volume(old(self).volumes@, volume_id) { e == "Volume ID not found" } else { e == "File records table full" && all_full(old(self).files@) })
                    && *final(self) == *old(self),
            },
            storage_invariant(*old(self)) ==> storage_invariant(*final(self)),
    {
        if !self.volume_exists(volume_id) {
            return Err("Volume ID not found");
        }
        let fid = self.file_counter;
        match find_free(&self.files) {
            Some(i) => {
                self.files[i] = Some(PackageFileRecord { file_id: fid, volume_id, name_hash, size_bytes, is_installed_package: true });
                self.file_counter = self.file_counter.saturating_add(1);
                Ok(fid)
            },
            None => Err("File records table full"),
        }
    }

    /// Removes the first record of file `file_id`.
    pub fn delete_package_file(&mut self, file_id: u32) -> (r: Result<(), &'static str>)
        ensures
            match r {
                Ok(()) => exists|i: int| is_file_at(old(self).files@, file_id, i) && final(self).files@ == old(self).files@.update(i, None) && final(self).same_except_files(*old(self)) && final(self).file_counter == old(self).file_counter,
                Err(e) => e == "File not found" && !has_file(old(self).files@, file_id) && *final(self) == *old(self),
            },
            storage_invariant(*old(self)) ==> storage_invariant(*final(self)),
    {
        let mut i: usize = 0;
        while i < MAX_PACKAGE_FILES
            invariant
                self.files@.len() == MAX_PACKAGE_FILES,
                i <= MAX_PACKAGE_FILES,
                *self == *old(self),
                forall|j: int| 0 <= j < i ==> !file_is(#[trigger] self.files@[j], file_id),
            decreases MAX_PACKAGE_FILES - i,
        {
            if let Some(f) = self.files[i] {
                if f.file_id == file_id {
                    assert(is_file_at(self.files@, file_id, i as int));
                    self.files[i] = None;
                    return Ok(());
                }
            }
            i += 1;
        }
        Err("File not found")
    }

    /// Counts a self-healing repair when a snapshot of the volume exists.
    pub fn trigger_self_healing_repair(&mut self, volume_id: u32) -> (r: bool)
        requires
            old(self).self_healed_events < usize::MAX,
        ensures
            r == has_snapshot_of(old(self).snapshots@, volume_id),
            final(self).self_healed_events == if r { old(self).self_healed_events + 1 } else { old(self).self_healed_events as int },
            final(self).volumes == old(self).volumes && final(self).mounts == old(self).mounts,
            final(self).snapshots == old(self).snapshots && final(self).files == old(self).files,
            final(self).cache == old(self).cache && final(self).volume_counter == old(self).volume_counter,
            final(self).mount_counter == old(self).mount_counter && final(self).snapshot_counter == old(self).snapshot_counter,
            final(self).file_counter == old(self).file_counter,
            storage_invariant(*old(self)) ==> storage_invariant(*final(self)),
    {
        let mut i: usize = 0;
        while i < MAX_SNAPSHOTS
            invariant
                self.snapshots@.len() == MAX_SNAPSHOTS,
                i <= MAX_SNAPSHOTS,
                *self == *old(self),
                old(self).self_healed_events < usize::MAX,
                forall|j: int| 0 <= j < i ==> !snap_of(#[trigger] self.snapshots@[j], volume_id),
            decreases MAX_SNAPSHOTS - i,
        {
            if let Some(s) = self.snapshots[i] {
                if s.volume_id == volume_id {
                    self.self_healed_events += 1;
                    return true;
                }
            }
            i += 1;
        }
        false
    }
}

} // verus!

//! The installation data model and the provisioning pipeline's planning
//! logic.
//!
//! The pipeline runs a fixed sequence of stages against one
//! [`InstallInfo`] value. Each stage's decisions — which partitions to
//! format, in which order to mount, which files to write with which content
//! and permission bits — are computed here as plain plan values with exact
//! contracts. The surrounding binary carries the plans out (creates the
//! directories, spawns the tools, writes the files) and reports each
//! stage's outcome back to the pipeline state machine in [`crate::pipeline`].

use vstd::prelude::*;
use vstd::seq_lib::to_multiset_insert;
use crate::lang::Language;
use crate::text::{dec_digits, lex_le, lex_lt, lemma_lex_total, lemma_lex_antisym, lemma_lex_trans,
    lemma_lex_refl, str_eq, u64_to_dec, lex_lt_exec};

verus! {

/// The staging mountpoint under which the new system is assembled.
pub open spec fn spec_mount_root() -> Seq<char> {
    "/mnt"@
}

/// Returns the staging mountpoint path.
pub fn mount_root() -> (r: &'static str)
    ensures
        r@ == spec_mount_root(),
{
    "/mnt"
}

/// A partition to be created.
#[derive(Clone, Debug)]
pub struct PartitionDesc {
    /// The start offset of the partition in sectors.
    pub start: u64,
    /// The size of the partition in sectors.
    pub size: u64,
    /// The partition type.
    pub part_type: String,
    /// Tells whether the partition is bootable.
    pub bootable: bool,
    /// The path at which the partition is to be mounted for installation.
    ///
    /// If None, the partition shouldn't be mounted.
    pub mount_path: Option<String>,
}

/// The mathematical value of a [`PartitionDesc`].
pub struct PartitionDescV {
    pub start: u64,
    pub size: u64,
    pub part_type: Seq<char>,
    pub bootable: bool,
    pub mount_path: Option<Seq<char>>,
}

impl View for PartitionDesc {
    type V = PartitionDescV;

    open spec fn view(&self) -> PartitionDescV {
        PartitionDescV {
            start: self.start,
            size: self.size,
            part_type: self.part_type@,
            bootable: self.bootable,
            mount_path: if self.mount_path is Some {
                Some(self.mount_path->0@)
            } else {
                None
            },
        }
    }
}

/// The rendering of a partition descriptor for listings.
pub open spec fn spec_desc_display(p: PartitionDescV) -> Seq<char> {
    "start: "@ + dec_digits(p.start as nat) + ", size: "@ + dec_digits(p.size as nat)
        + " sectors"@ + (if p.bootable {
        ", bootable"@
    } else {
        Seq::<char>::empty()
    }) + (if p.mount_path is Some {
        ", mount path: "@ + p.mount_path->0 + " "@
    } else {
        Seq::<char>::empty()
    })
}

impl PartitionDesc {
    /// Renders the descriptor as `start: <s>, size: <n> sectors`, with the
    /// bootable flag and the mount path appended when set.
    pub fn to_display_string(&self) -> (r: String)
        ensures
            r@ == spec_desc_display(self@),
    {
        let mut s = String::from_str("start: ");
        s.append(u64_to_dec(self.start).as_str());
        s.append(", size: ");
        s.append(u64_to_dec(self.size).as_str());
        s.append(" sectors");
        if self.bootable {
            s.append(", bootable");
        }
        if let Some(mount_path) = &self.mount_path {
            s.append(", mount path: ");
            s.append(mount_path.as_str());
            s.append(" ");
        }
        s
    }
}

/// Installation informations, built step by step by the wizard and read by
/// the pipeline.
#[derive(Clone, Debug)]
pub struct InstallInfo {
    /// The system's language.
    pub lang: Option<Language>,
    /// The system's country.
    pub country: String,
    /// The system's timezone.
    pub tz: String,
    /// The system's hostname.
    pub hostname: String,
    /// Admin username.
    pub admin_user: String,
    /// Hashed admin password.
    pub admin_pass: String,
    /// The path to the disk on which the system is to be installed.
    pub selected_disk: String,
    /// The partition scheme to be used.
    pub partitions: Vec<PartitionDesc>,
}

impl Default for InstallInfo {
    /// Returns an installation configuration with every field unset.
    fn default() -> (r: Self)
        ensures
            r.lang is None,
            r.country@ == Seq::<char>::empty(),
            r.tz@ == Seq::<char>::empty(),
            r.hostname@ == Seq::<char>::empty(),
            r.admin_user@ == Seq::<char>::empty(),
            r.admin_pass@ == Seq::<char>::empty(),
            r.selected_disk@ == Seq::<char>::empty(),
            r.partitions@ == Seq::<PartitionDesc>::empty(),
    {
        InstallInfo {
            lang: None,
            country: String::new(),
            tz: String::new(),
            hostname: String::new(),
            admin_user: String::new(),
            admin_pass: String::new(),
            selected_disk: String::new(),
            partitions: Vec::new(),
        }
    }
}

/// A fatal planning error: the configuration cannot be realized.
#[derive(Clone, Copy, Debug, PartialEq, Eq, Structural)]
pub enum InstallError {
    /// A partition descriptor carries a type identifier outside the
    /// recognized set.
    UnknownPartitionType,
    /// The locale stage ran with no language selected.
    LanguageNotSet,
}

impl InstallError {
    /// A short description of the error.
    pub fn message(&self) -> (r: &'static str)
        ensures
            self is UnknownPartitionType ==> r@ == "unknown partition type"@,
            self is LanguageNotSet ==> r@ == "language is not set"@,
    {
        match self {
            Self::UnknownPartitionType => "unknown partition type",
            Self::LanguageNotSet => "language is not set",
        }
    }
}

/// An external command to be spawned: a program name and its arguments.
/// The stage the command belongs to fails when the process exits with a
/// non-zero status.
#[derive(Clone, Debug)]
pub struct Command {
    pub program: String,
    pub args: Vec<String>,
}

/// A file to be written, replacing any previous content.
#[derive(Clone, Debug)]
pub struct FileWrite {
    pub path: String,
    pub content: String,
}

// ---------------------------------------------------------------------------
// Partition types and the partition-table stage
// ---------------------------------------------------------------------------

/// The closed set of recognized partition types.
#[derive(Clone, Copy, Debug, PartialEq, Eq, Structural)]
pub enum PartitionType {
    BiosBoot,
    EfiSystem,
    LinuxSwap,
    LinuxRootX86,
    LinuxData,
}

/// The kind of partition table written to the disk.
#[derive(Clone, Copy, Debug, PartialEq, Eq, Structural)]
pub enum PartitionTableType {
    Mbr,
    Gpt,
}

/// Maps a partition-type identifier (a GPT type GUID) to the recognized
/// type it names, or `None` for an identifier outside the recognized set.
pub open spec fn spec_partition_type_of(tag: Seq<char>) -> Option<PartitionType> {
    if tag == "21686148-6449-6E6F-744E-656564454649"@ {
        Some(PartitionType::BiosBoot)
    } else if tag == "C12A7328-F81F-11D2-BA4B-00A0C93EC93B"@ {
        Some(PartitionType::EfiSystem)
    } else if tag == "0657FD6D-A4AB-43C4-84E5-0933C84B4F4F"@ {
        Some(PartitionType::LinuxSwap)
    } else if tag == "44479540-F297-41B2-9AF7-D131D5F0458A"@ {
        Some(PartitionType::LinuxRootX86)
    } else if tag == "0FC63DAF-8483-4772-8E79-3D69D8477DE4"@ {
        Some(PartitionType::LinuxData)
    } else {
        None
    }
}

/// Looks a partition-type identifier up in the recognized set.
pub fn partition_type_from_str(tag: &str) -> (r: Option<PartitionType>)
    ensures
        r == spec_partition_type_of(tag@),
{
    if str_eq(tag, "21686148-6449-6E6F-744E-656564454649") {
        Some(PartitionType::BiosBoot)
    } else if str_eq(tag, "C12A7328-F81F-11D2-BA4B-00A0C93EC93B") {
        Some(PartitionType::EfiSystem)
    } else if str_eq(tag, "0657FD6D-A4AB-43C4-84E5-0933C84B4F4F") {
        Some(PartitionType::LinuxSwap)
    } else if str_eq(tag, "44479540-F297-41B2-9AF7-D131D5F0458A") {
        Some(PartitionType::LinuxRootX86)
    } else if str_eq(tag, "0FC63DAF-8483-4772-8E79-3D69D8477DE4") {
        Some(PartitionType::LinuxData)
    } else {
        None
    }
}

/// One entry of a planned partition table.
#[derive(Clone, Debug)]
pub struct TableEntry {
    /// The start offset in sectors.
    pub start: u64,
    /// The size in sectors.
    pub size: u64,
    /// The recognized partition type.
    pub part_type: PartitionType,
    /// The fresh unique identifier given to the partition.
    pub uuid: String,
    /// Tells whether the partition is bootable.
    pub bootable: bool,
}

/// The partition table to be written to the target disk.
#[derive(Clone, Debug)]
pub struct PartitionTable {
    /// The kind of table.
    pub table_type: PartitionTableType,
    /// The table's entries, in on-disk order.
    pub entries: Vec<TableEntry>,
}

impl InstallInfo {
    /// Plans the partition table for the partitioning stage: one entry per
    /// descriptor, preserving start, size and the bootable flag, mapping
    /// the type identifier through the recognized set, and giving each
    /// partition one of the fresh identifiers in `uuids`. Fails — before
    /// anything is written — when a descriptor's type identifier is not
    /// recognized. The table kind is always GPT.
    pub fn partition_disks(&self, uuids: &Vec<String>) -> (r: Result<
        PartitionTable,
        InstallError,
    >)
        requires
            uuids@.len() == self.partitions@.len(),
        ensures
            r is Ok <==> (forall|i: int|
                0 <= i < self.partitions@.len() ==> spec_partition_type_of(
                    #[trigger] self.partitions@[i]@.part_type,
                ) is Some),
            r is Err ==> r->Err_0 == InstallError::UnknownPartitionType,
            r is Ok ==> {
                let t = r->Ok_0;
                &&& t.table_type == PartitionTableType::Gpt
                &&& t.entries@.len() == self.partitions@.len()
                &&& forall|i: int|
                    0 <= i < t.entries@.len() ==> {
                        let e = #[trigger] t.entries@[i];
                        let d = self.partitions@[i]@;
                        &&& e.start == d.start
                        &&& e.size == d.size
                        &&& Some(e.part_type) == spec_partition_type_of(d.part_type)
                        &&& e.uuid@ == uuids@[i]@
                        &&& e.bootable == d.bootable
                    }
            },
    {
        let mut entries: Vec<TableEntry> = Vec::new();
        let n = self.partitions.len();
        let mut i: usize = 0;
        while i < n
            invariant
                0 <= i <= n == self.partitions@.len(),
                uuids@.len() == n,
                entries@.len() == i,
                forall|j: int|
                    0 <= j < i ==> spec_partition_type_of(
                        #[trigger] self.partitions@[j]@.part_type,
                    ) is Some,
                forall|j: int|
                    0 <= j < i ==> {
                        let e = #[trigger] entries@[j];
                        let d = self.partitions@[j]@;
                        &&& e.start == d.start
                        &&& e.size == d.size
                        &&& Some(e.part_type) == spec_partition_type_of(d.part_type)
                        &&& e.uuid@ == uuids@[j]@
                        &&& e.bootable == d.bootable
                    },
            decreases n - i,
        {
            let desc = &self.partitions[i];
            let part_type = match partition_type_from_str(desc.part_type.as_str()) {
                Some(t) => t,
                None => {
                    proof {
                        assert(self.partitions@[i as int]@.part_type == desc.part_type@);
                        assert(spec_partition_type_of(
                            self.partitions@[i as int]@.part_type,
                        ) is None);
                    }
                    return Err(InstallError::UnknownPartitionType);
                },
            };
            let entry = TableEntry {
                start: desc.start,
                size: desc.size,
                part_type,
                uuid: uuids[i].clone(),
                bootable: desc.bootable,
            };
            entries.push(entry);
            i = i + 1;
        }
        Ok(PartitionTable { table_type: PartitionTableType::Gpt, entries })
    }
}

// ---------------------------------------------------------------------------
// Device paths and the filesystem-creation stage
// ---------------------------------------------------------------------------

/// The device path of the 1-based partition `num` of a disk: the disk path
/// with the number appended.
pub open spec fn spec_dev_path(disk: Seq<char>, num: nat) -> Seq<char> {
    disk + dec_digits(num)
}

/// Returns the device path of the partition at 0-based index `index` of
/// `disk`: the disk path followed by the 1-based partition number.
pub fn partition_dev_path(disk: &str, index: usize) -> (r: String)
    requires
        index < u64::MAX,
    ensures
        r@ == spec_dev_path(disk@, (index + 1) as nat),
{
    let mut s = String::from_str(disk);
    s.append(u64_to_dec((index as u64) + 1).as_str());
    s
}

/// The 0-based indices of the partitions that carry a mount path, each
/// paired with that path, in descriptor order.
pub open spec fn spec_mountable(parts: Seq<PartitionDescV>, n: int) -> Seq<(int, Seq<char>)>
    decreases n,
{
    if n <= 0 {
        Seq::empty()
    } else {
        spec_mountable(parts, n - 1) + (if parts[n - 1].mount_path is Some {
            seq![(n - 1, parts[n - 1].mount_path->0)]
        } else {
            Seq::empty()
        })
    }
}

impl InstallInfo {
    /// Plans the filesystem-creation stage: one `mkfs.ext2` invocation on
    /// the device node of every partition that has a mount path, in
    /// descriptor order. Partitions with no mount path are skipped: they
    /// are consumed by the bootloader, not mounted.
    pub fn create_filesystems(&self) -> (r: Vec<Command>)
        requires
            self.partitions@.len() < u64::MAX,
        ensures
            ({
                let m = spec_mountable(
                    self.partitions@.map_values(|p: PartitionDesc| p@),
                    self.partitions@.len() as int,
                );
                &&& r@.len() == m.len()
                &&& forall|k: int|
                    0 <= k < m.len() ==> {
                        let c = #[trigger] r@[k];
                        &&& c.program@ == "mkfs.ext2"@
                        &&& c.args@.len() == 1
                        &&& c.args@[0]@ == spec_dev_path(
                            self.selected_disk@,
                            (m[k].0 + 1) as nat,
                        )
                    }
            }),
    {
        let ghost pviews = self.partitions@.map_values(|p: PartitionDesc| p@);
        let mut r: Vec<Command> = Vec::new();
        let n = self.partitions.len();
        let mut i: usize = 0;
        while i < n
            invariant
                0 <= i <= n == self.partitions@.len(),
                n < u64::MAX,
                pviews == self.partitions@.map_values(|p: PartitionDesc| p@),
                ({
                    let m = spec_mountable(pviews, i as int);
                    &&& r@.len() == m.len()
                    &&& forall|k: int|
                        0 <= k < m.len() ==> {
                            let c = #[trigger] r@[k];
                            &&& c.program@ == "mkfs.ext2"@
                            &&& c.args@.len() == 1
                            &&& c.args@[0]@ == spec_dev_path(
                                self.selected_disk@,
                                (m[k].0 + 1) as nat,
                            )
                        }
                }),
            decreases n - i,
        {
            proof {
                assert(pviews[i as int] == self.partitions@[i as int]@);
            }
            if self.partitions[i].mount_path.is_some() {
                let dev_path = partition_dev_path(self.selected_disk.as_str(), i);
                let mut args: Vec<String> = Vec::new();
                args.push(dev_path);
                let cmd = Command { program: String::from_str("mkfs.ext2"), args };
                r.push(cmd);
            }
            i = i + 1;
        }
        r
    }
}

// ---------------------------------------------------------------------------
// Mount order and the mount stage
// ---------------------------------------------------------------------------

/// Whether mount entries are in mount order: ascending lexicographic by
/// mount path, and entries with equal paths keeping ascending descriptor
/// index — the order is stable.
pub open spec fn spec_entries_sorted(s: Seq<(int, Seq<char>)>) -> bool {
    forall|i: int, j: int|
        #![trigger s[i], s[j]]
        0 <= i < j < s.len() ==> lex_le(s[i].1, s[j].1) && (s[i].1 == s[j].1 ==> s[i].0 < s[j].0)
}

/// The position at which a path is inserted in mount order: after every
/// entry whose path is less than or equal to it, before the first strictly
/// greater one.
pub open spec fn spec_insert_pos(s: Seq<(int, Seq<char>)>, key: Seq<char>) -> int
    decreases s.len(),
{
    if s.len() == 0 {
        0
    } else if lex_lt(key, s[0].1) {
        0
    } else {
        1 + spec_insert_pos(s.drop_first(), key)
    }
}

/// Inserts one entry in mount order.
pub open spec fn spec_insert_entry(s: Seq<(int, Seq<char>)>, e: (int, Seq<char>)) -> Seq<
    (int, Seq<char>),
> {
    s.insert(spec_insert_pos(s, e.1), e)
}

/// The mount order of a list of entries: each inserted in turn, which
/// keeps the order of equal paths.
pub open spec fn spec_sort_entries(s: Seq<(int, Seq<char>)>) -> Seq<(int, Seq<char>)>
    decreases s.len(),
{
    if s.len() == 0 {
        Seq::empty()
    } else {
        spec_insert_entry(spec_sort_entries(s.drop_last()), s.last())
    }
}

/// The mountable partitions of a descriptor list, in mount order.
pub open spec fn spec_mount_order(parts: Seq<PartitionDescV>) -> Seq<(int, Seq<char>)> {
    spec_sort_entries(spec_mountable(parts, parts.len() as int))
}

proof fn lemma_insert_pos_props(s: Seq<(int, Seq<char>)>, key: Seq<char>)
    ensures
        0 <= spec_insert_pos(s, key) <= s.len(),
        forall|i: int| 0 <= i < spec_insert_pos(s, key) ==> lex_le((#[trigger] s[i]).1, key),
        spec_insert_pos(s, key) < s.len() ==> lex_lt(key, s[spec_insert_pos(s, key)].1),
    decreases s.len(),
{
    if s.len() != 0 {
        if lex_lt(key, s[0].1) {
        } else {
            lemma_lex_total(key, s[0].1);
            if key == s[0].1 {
                lemma_lex_refl(key);
            }
            assert(lex_le(s[0].1, key));
            lemma_insert_pos_props(s.drop_first(), key);
            let pos = spec_insert_pos(s, key);
            assert forall|i: int| 0 <= i < pos implies lex_le((#[trigger] s[i]).1, key) by {
                if i > 0 {
                    assert(s.drop_first()[i - 1] == s[i]);
                }
            };
            if pos < s.len() {
                assert(s.drop_first()[pos - 1] == s[pos]);
            }
        }
    }
}

/// The insertion position is the first index whose path is strictly
/// greater than the key.
proof fn lemma_insert_pos_first(s: Seq<(int, Seq<char>)>, key: Seq<char>, j: int)
    requires
        0 <= j <= s.len(),
        forall|k: int| 0 <= k < j ==> !lex_lt(key, (#[trigger] s[k]).1),
        j < s.len() ==> lex_lt(key, s[j].1),
    ensures
        spec_insert_pos(s, key) == j,
    decreases s.len(),
{
    if s.len() != 0 && !lex_lt(key, s[0].1) {
        assert(j > 0);
        assert forall|k: int| 0 <= k < j - 1 implies !lex_lt(key, (#[trigger] s.drop_first()[k]).1) by {
            assert(s.drop_first()[k] == s[k + 1]);
        };
        if j - 1 < s.drop_first().len() {
            assert(s.drop_first()[j - 1] == s[j]);
        }
        lemma_insert_pos_first(s.drop_first(), key, j - 1);
    }
}

proof fn lemma_sorted_insert(s: Seq<(int, Seq<char>)>, e: (int, Seq<char>))
    requires
        spec_entries_sorted(s),
        forall|i: int| 0 <= i < s.len() ==> (#[trigger] s[i]).0 < e.0,
    ensures
        spec_entries_sorted(spec_insert_entry(s, e)),
{
    let pos = spec_insert_pos(s, e.1);
    lemma_insert_pos_props(s, e.1);
    let t = s.insert(pos, e);
    s.insert_ensures(pos, e);
    assert forall|i: int, j: int|
        #![trigger t[i], t[j]]
        0 <= i < j < t.len() implies lex_le(t[i].1, t[j].1) && (t[i].1 == t[j].1 ==> t[i].0
        < t[j].0) by {
        if j < pos {
            assert(t[i] == s[i] && t[j] == s[j]);
        } else if i < pos && j == pos {
            assert(t[i] == s[i] && t[j] == e);
            assert(lex_le(s[i].1, e.1));
        } else if i < pos && j > pos {
            assert(t[i] == s[i] && t[j] == s[j - 1]);
        } else if i == pos && j > pos {
            assert(t[i] == e && t[j] == s[j - 1]);
            assert(lex_lt(e.1, s[pos].1));
            if j - 1 > pos {
                lemma_lex_trans(e.1, s[pos].1, s[j - 1].1);
            }
            if e.1 == s[j - 1].1 {
                lemma_lex_refl(e.1);
                lemma_lex_antisym(e.1, s[pos].1);
                assert(false);
            }
        } else {
            assert(i > pos);
            assert(t[i] == s[i - 1] && t[j] == s[j - 1]);
        }
    };
}

/// Every index of a mountable-entry list is the index of a descriptor, and
/// the indices ascend.
proof fn lemma_mountable_indices(parts: Seq<PartitionDescV>, n: int)
    requires
        n <= parts.len(),
    ensures
        forall|k: int|
            0 <= k < spec_mountable(parts, n).len() ==> 0 <= (#[trigger] spec_mountable(
                parts,
                n,
            )[k]).0 < n,
        forall|i: int, j: int|
            #![trigger spec_mountable(parts, n)[i], spec_mountable(parts, n)[j]]
            0 <= i < j < spec_mountable(parts, n).len() ==> spec_mountable(parts, n)[i].0
                < spec_mountable(parts, n)[j].0,
    decreases n,
{
    if n > 0 {
        lemma_mountable_indices(parts, n - 1);
        let prev = spec_mountable(parts, n - 1);
        let cur = spec_mountable(parts, n);
        assert forall|k: int| 0 <= k < cur.len() implies 0 <= (#[trigger] cur[k]).0 < n by {
            if k < prev.len() {
                assert(cur[k] == prev[k]);
            }
        };
        assert forall|i: int, j: int|
            #![trigger cur[i], cur[j]]
            0 <= i < j < cur.len() implies cur[i].0 < cur[j].0 by {
            if j < prev.len() {
                assert(cur[i] == prev[i] && cur[j] == prev[j]);
            } else {
                assert(cur[i] == prev[i]);
            }
        };
    }
}

proof fn lemma_sort_entries_props(s: Seq<(int, Seq<char>)>)
    requires
        forall|i: int, j: int|
            #![trigger s[i], s[j]]
            0 <= i < j < s.len() ==> s[i].0 < s[j].0,
    ensures
        spec_entries_sorted(spec_sort_entries(s)),
        spec_sort_entries(s).to_multiset() == s.to_multiset(),
    decreases s.len(),
{
    broadcast use vstd::seq_lib::group_to_multiset_ensures;

    if s.len() == 0 {
        assert(spec_sort_entries(s).to_multiset() =~= s.to_multiset());
    } else {
        let s0 = s.drop_last();
        let e = s.last();
        assert forall|i: int, j: int|
            #![trigger s0[i], s0[j]]
            0 <= i < j < s0.len() implies s0[i].0 < s0[j].0 by {
            assert(s0[i] == s[i] && s0[j] == s[j]);
        };
        lemma_sort_entries_props(s0);
        let t0 = spec_sort_entries(s0);
        assert forall|i: int| 0 <= i < t0.len() implies (#[trigger] t0[i]).0 < e.0 by {
            let x = t0[i];
            assert(t0.contains(x));
            assert(t0.to_multiset().count(x) > 0);
            assert(s0.to_multiset().count(x) > 0);
            assert(s0.contains(x));
            let j = choose|j: int| 0 <= j < s0.len() && s0[j] == x;
            assert(s0[j] == s[j] && e == s[s.len() - 1]);
        };
        lemma_sorted_insert(t0, e);
        let pos = spec_insert_pos(t0, e.1);
        lemma_insert_pos_props(t0, e.1);
        to_multiset_insert(t0, pos, e);
        assert(s0.push(e) =~= s);
        assert(s0.push(e).to_multiset() =~= s0.to_multiset().insert(e));
        assert(spec_sort_entries(s).to_multiset() =~= s.to_multiset());
    }
}

/// Mount order is stable and ascending: for any descriptor list, the mount
/// order of its mountable partitions ascends lexicographically by mount
/// path, partitions with equal mount paths keep their descriptor order,
/// and exactly the mountable partitions appear.
pub proof fn lemma_mount_order_sorted(parts: Seq<PartitionDescV>)
    ensures
        spec_entries_sorted(spec_mount_order(parts)),
        spec_mount_order(parts).to_multiset() == spec_mountable(
            parts,
            parts.len() as int,
        ).to_multiset(),
{
    lemma_mountable_indices(parts, parts.len() as int);
    lemma_sort_entries_props(spec_mountable(parts, parts.len() as int));
}

/// The root path `/` comes first in mount order: it is less than or equal
/// to every path that begins with `/`, in particular every proper sub-path
/// such as `/boot`.
pub proof fn lemma_root_path_first(p: Seq<char>)
    requires
        p.len() > 0,
        p[0] == '/',
    ensures
        lex_le("/"@, p),
{
    reveal_strlit("/");
    assert("/"@.len() == 1);
    assert("/"@[0] == '/');
    assert("/"@.drop_first().len() == 0);
    assert(lex_le("/"@.drop_first(), p.drop_first()));
}

/// One mount operation: create the target directory and its parents, then
/// mount the device on it.
#[derive(Clone, Debug)]
pub struct MountStep {
    /// The device node to mount.
    pub dev_path: String,
    /// The directory under the staging root to mount it on.
    pub target_dir: String,
}

/// A mountable partition while the mount stage is being ordered.
struct MountEntry {
    /// The 0-based index of the partition in the descriptor list.
    index: usize,
    /// The partition's mount path.
    path: String,
}

/// The mathematical value of a mount entry: its descriptor index and its
/// mount path.
spec fn entry_views(s: Seq<MountEntry>) -> Seq<(int, Seq<char>)> {
    s.map_values(|e: MountEntry| (e.index as int, e.path@))
}

impl InstallInfo {
    /// Plans the mount stage: the mountable partitions in mount order —
    /// ascending lexicographic by mount path, so that a parent such as `/`
    /// is mounted before a child such as `/boot` — each with its device
    /// node and its target directory under the staging root.
    pub fn mount_filesystems(&self) -> (r: Vec<MountStep>)
        requires
            self.partitions@.len() < u64::MAX,
        ensures
            ({
                let m = spec_mount_order(self.partitions@.map_values(|p: PartitionDesc| p@));
                &&& r@.len() == m.len()
                &&& forall|k: int|
                    0 <= k < m.len() ==> {
                        let st = #[trigger] r@[k];
                        &&& st.dev_path@ == spec_dev_path(self.selected_disk@, (m[k].0 + 1) as nat)
                        &&& st.target_dir@ == spec_mount_root() + m[k].1
                    }
            }),
    {
        let ghost pviews = self.partitions@.map_values(|p: PartitionDesc| p@);
        let n = self.partitions.len();

        // Collect the mountable partitions in descriptor order.
        let mut entries: Vec<MountEntry> = Vec::new();
        let mut i: usize = 0;
        while i < n
            invariant
                0 <= i <= n == self.partitions@.len(),
                pviews == self.partitions@.map_values(|p: PartitionDesc| p@),
                entry_views(entries@) =~~= spec_mountable(pviews, i as int),
            decreases n - i,
        {
            proof {
                assert(pviews[i as int] == self.partitions@[i as int]@);
            }
            match &self.partitions[i].mount_path {
                Some(mp) => {
                    let e = MountEntry { index: i, path: mp.clone() };
                    entries.push(e);
                    proof {
                        assert(entry_views(entries@) =~~= spec_mountable(pviews, i + 1));
                    }
                },
                None => {
                    proof {
                        assert(entry_views(entries@) =~~= spec_mountable(pviews, i + 1));
                    }
                },
            }
            i = i + 1;
        }
        let ghost mall = spec_mountable(pviews, n as int);

        // Insert each entry at its mount-order position: a stable
        // insertion sort.
        let mut sorted: Vec<MountEntry> = Vec::new();
        let mut t: usize = 0;
        let en = entries.len();
        while t < en
            invariant
                0 <= t <= en == entries@.len(),
                entry_views(entries@) =~~= mall,
                entry_views(sorted@) =~~= spec_sort_entries(mall.take(t as int)),
                sorted@.len() <= t,
            decreases en - t,
        {
            let e_path = entries[t].path.clone();
            let e_index = entries[t].index;
            let ghost ev = (e_index as int, e_path@);
            let ghost sviews = entry_views(sorted@);
            let sn = sorted.len();
            let mut j: usize = 0;
            loop
                invariant
                    0 <= j <= sn == sorted@.len(),
                    sviews == entry_views(sorted@),
                    forall|k: int| 0 <= k < j ==> !lex_lt(e_path@, (#[trigger] sviews[k]).1),
                ensures
                    0 <= j <= sn,
                    forall|k: int| 0 <= k < j ==> !lex_lt(e_path@, (#[trigger] sviews[k]).1),
                    j < sn ==> lex_lt(e_path@, sviews[j as int].1),
                decreases sn - j,
            {
                if j == sn {
                    break ;
                }
                proof {
                    assert(sviews[j as int] == (sorted@[j as int].index as int,
                    sorted@[j as int].path@));
                }
                if lex_lt_exec(e_path.as_str(), sorted[j].path.as_str()) {
                    break ;
                }
                j = j + 1;
            }
            proof {
                lemma_insert_pos_first(sviews, e_path@, j as int);
            }
            let e = MountEntry { index: e_index, path: e_path };
            sorted.insert(j, e);
            proof {
                assert(entry_views(sorted@) =~~= sviews.insert(j as int, ev));
                assert(mall.take(t + 1).drop_last() =~= mall.take(t as int));
                assert(mall.take(t + 1).last() == mall[t as int]);
                assert(mall[t as int] == entry_views(entries@)[t as int]);
                assert(entry_views(entries@)[t as int] == ev);
            }
            t = t + 1;
        }
        proof {
            assert(mall.take(en as int) =~= mall);
        }

        // Emit the mount steps in mount order.
        let ghost morder = spec_sort_entries(mall);
        proof {
            lemma_mountable_indices(pviews, n as int);
            lemma_sort_entries_props(mall);
            broadcast use vstd::seq_lib::group_to_multiset_ensures;

            assert forall|k: int| 0 <= k < morder.len() implies 0 <= (#[trigger] morder[k]).0
                < n by {
                let x = morder[k];
                assert(morder.contains(x));
                assert(morder.to_multiset().count(x) > 0);
                assert(mall.to_multiset().count(x) > 0);
                assert(mall.contains(x));
            };
        }
        let mut r: Vec<MountStep> = Vec::new();
        let sn = sorted.len();
        let mut k: usize = 0;
        while k < sn
            invariant
                0 <= k <= sn == sorted@.len(),
                entry_views(sorted@) =~~= morder,
                morder == spec_sort_entries(mall),
                forall|q: int| 0 <= q < morder.len() ==> 0 <= (#[trigger] morder[q]).0 < n,
                n == self.partitions@.len() < u64::MAX,
                r@.len() == k,
                forall|q: int|
                    0 <= q < k ==> {
                        let st = #[trigger] r@[q];
                        &&& st.dev_path@ == spec_dev_path(self.selected_disk@, (morder[q].0
                            + 1) as nat)
                        &&& st.target_dir@ == spec_mount_root() + morder[q].1
                    },
            decreases sn - k,
        {
            proof {
                assert(entry_views(sorted@)[k as int] == (sorted@[k as int].index as int,
                sorted@[k as int].path@));
            }
            let dev_path = partition_dev_path(self.selected_disk.as_str(), sorted[k].index);
            let mut target_dir = String::from_str(mount_root());
            target_dir.append(sorted[k].path.as_str());
            r.push(MountStep { dev_path, target_dir });
            k = k + 1;
        }
        r
    }
}

// ---------------------------------------------------------------------------
// The directory hierarchy
// ---------------------------------------------------------------------------

/// Joins two path fragments by plain concatenation.
fn join2(a: &str, b: &str) -> (r: String)
    ensures
        r@ == a@ + b@,
{
    let s = String::from_str(a);
    s.concat(b)
}

/// The standard filesystem-hierarchy directories created under the staging
/// root, in creation order: parents come before their children.
pub open spec fn spec_dir_paths(mnt: Seq<char>) -> Seq<Seq<char>> {
    seq![
        mnt + "/bin"@,
        mnt + "/boot"@,
        mnt + "/dev"@,
        mnt + "/etc"@,
        mnt + "/home"@,
        mnt + "/lib"@,
        mnt + "/media"@,
        mnt + "/mnt"@,
        mnt + "/opt"@,
        mnt + "/proc"@,
        mnt + "/root"@,
        mnt + "/run"@,
        mnt + "/sbin"@,
        mnt + "/srv"@,
        mnt + "/sys"@,
        mnt + "/tmp"@,
        mnt + "/usr"@,
        mnt + "/var"@,
        mnt + "/etc/opt"@,
        mnt + "/etc/sysconfig"@,
        mnt + "/lib/firmware"@,
        mnt + "/run/lock"@,
        mnt + "/run/log"@,
        mnt + "/usr/bin"@,
        mnt + "/usr/include"@,
        mnt + "/usr/lib"@,
        mnt + "/usr/local"@,
        mnt + "/usr/sbin"@,
        mnt + "/usr/share"@,
        mnt + "/usr/src"@,
        mnt + "/usr/share/doc"@,
        mnt + "/usr/share/info"@,
        mnt + "/usr/share/locale"@,
        mnt + "/usr/share/man"@,
        mnt + "/usr/share/misc"@,
        mnt + "/usr/local/bin"@,
        mnt + "/usr/local/include"@,
        mnt + "/usr/local/lib"@,
        mnt + "/usr/local/sbin"@,
        mnt + "/usr/local/share"@,
        mnt + "/usr/local/src"@,
        mnt + "/usr/local/share/doc"@,
        mnt + "/usr/local/share/info"@,
        mnt + "/usr/local/share/locale"@,
        mnt + "/usr/local/share/man"@,
        mnt + "/usr/local/share/misc"@,
        mnt + "/var/cache"@,
        mnt + "/var/lib"@,
        mnt + "/var/local"@,
        mnt + "/var/log"@,
        mnt + "/var/mail"@,
        mnt + "/var/opt"@,
        mnt + "/var/spool"@,
        mnt + "/var/lib/misc"@,
    ]
}

impl InstallInfo {
    /// Plans the directory-hierarchy stage: the fixed standard directories
    /// under the staging root, in creation order. Each is created
    /// tolerating a pre-existing directory, which makes the stage
    /// idempotent (see [`lemma_create_dirs_idempotent`]); any other
    /// creation failure is fatal.
    pub fn create_dirs(&self, mnt: &str) -> (r: Vec<String>)
        ensures
            r@.len() == spec_dir_paths(mnt@).len(),
            forall|k: int| 0 <= k < r@.len() ==> #[trigger] r@[k]@ == spec_dir_paths(mnt@)[k],
    {
        let mut r: Vec<String> = Vec::new();
        r.push(join2(mnt, "/bin"));
        r.push(join2(mnt, "/boot"));
        r.push(join2(mnt, "/dev"));
        r.push(join2(mnt, "/etc"));
        r.push(join2(mnt, "/home"));
        r.push(join2(mnt, "/lib"));
        r.push(join2(mnt, "/media"));
        r.push(join2(mnt, "/mnt"));
        r.push(join2(mnt, "/opt"));
        r.push(join2(mnt, "/proc"));
        r.push(join2(mnt, "/root"));
        r.push(join2(mnt, "/run"));
        r.push(join2(mnt, "/sbin"));
        r.push(join2(mnt, "/srv"));
        r.push(join2(mnt, "/sys"));
        r.push(join2(mnt, "/tmp"));
        r.push(join2(mnt, "/usr"));
        r.push(join2(mnt, "/var"));
        r.push(join2(mnt, "/etc/opt"));
        r.push(join2(mnt, "/etc/sysconfig"));
        r.push(join2(mnt, "/lib/firmware"));
        r.push(join2(mnt, "/run/lock"));
        r.push(join2(mnt, "/run/log"));
        r.push(join2(mnt, "/usr/bin"));
        r.push(join2(mnt, "/usr/include"));
        r.push(join2(mnt, "/usr/lib"));
        r.push(join2(mnt, "/usr/local"));
        r.push(join2(mnt, "/usr/sbin"));
        r.push(join2(mnt, "/usr/share"));
        r.push(join2(mnt, "/usr/src"));
        r.push(join2(mnt, "/usr/share/doc"));
        r.push(join2(mnt, "/usr/share/info"));
        r.push(join2(mnt, "/usr/share/locale"));
        r.push(join2(mnt, "/usr/share/man"));
        r.push(join2(mnt, "/usr/share/misc"));
        r.push(join2(mnt, "/usr/local/bin"));
        r.push(join2(mnt, "/usr/local/include"));
        r.push(join2(mnt, "/usr/local/lib"));
        r.push(join2(mnt, "/usr/local/sbin"));
        r.push(join2(mnt, "/usr/local/share"));
        r.push(join2(mnt, "/usr/local/src"));
        r.push(join2(mnt, "/usr/local/share/doc"));
        r.push(join2(mnt, "/usr/local/share/info"));
        r.push(join2(mnt, "/usr/local/share/locale"));
        r.push(join2(mnt, "/usr/local/share/man"));
        r.push(join2(mnt, "/usr/local/share/misc"));
        r.push(join2(mnt, "/var/cache"));
        r.push(join2(mnt, "/var/lib"));
        r.push(join2(mnt, "/var/local"));
        r.push(join2(mnt, "/var/log"));
        r.push(join2(mnt, "/var/mail"));
        r.push(join2(mnt, "/var/opt"));
        r.push(join2(mnt, "/var/spool"));
        r.push(join2(mnt, "/var/lib/misc"));
        r
    }

    /// Plans the package-installation stage's working directory: the
    /// package database directory that must exist under the staging root
    /// before the external package environment is handed the root. The
    /// installation itself is delegated to that external collaborator.
    pub fn install_packages(&self, mnt: &str) -> (r: String)
        ensures
            r@ == mnt@ + "/usr/lib/blimp"@,
    {
        join2(mnt, "/usr/lib/blimp")
    }
}

/// The directories that exist after running a list of create-directory
/// actions that tolerate pre-existing directories: each path is added to
/// the set of existing directories, and a path already present is left as
/// it is rather than failing.
pub open spec fn spec_apply_mkdirs(dirs: Seq<Seq<char>>, fs: Set<Seq<char>>) -> Set<Seq<char>>
    decreases dirs.len(),
{
    if dirs.len() == 0 {
        fs
    } else {
        spec_apply_mkdirs(dirs.drop_first(), fs.insert(dirs[0]))
    }
}

proof fn lemma_apply_mkdirs_union(dirs: Seq<Seq<char>>, fs: Set<Seq<char>>)
    ensures
        spec_apply_mkdirs(dirs, fs) =~= fs.union(dirs.to_set()),
    decreases dirs.len(),
{
    assert forall|x: Seq<char>| dirs.to_set().contains(x) <==> dirs.contains(x) by {}
    if dirs.len() == 0 {
        assert(forall|x: Seq<char>| !dirs.contains(x));
    } else {
        lemma_apply_mkdirs_union(dirs.drop_first(), fs.insert(dirs[0]));
        assert forall|x: Seq<char>|
            dirs.contains(x) <==> (x == dirs[0] || dirs.drop_first().contains(x)) by {
            if dirs.contains(x) {
                let i = choose|i: int| 0 <= i < dirs.len() && dirs[i] == x;
                if i > 0 {
                    assert(dirs.drop_first()[i - 1] == x);
                }
            }
            if dirs.drop_first().contains(x) {
                let i = choose|i: int| 0 <= i < dirs.drop_first().len() && dirs.drop_first()[i]
                    == x;
                assert(dirs[i + 1] == x);
            }
        };
    }
}

/// Creating the directory hierarchy is idempotent: running the stage a
/// second time over the same root changes nothing — every directory
/// already exists, pre-existing directories are not an error, and no
/// duplicate entry appears.
pub proof fn lemma_create_dirs_idempotent(mnt: Seq<char>, fs: Set<Seq<char>>)
    ensures
        spec_apply_mkdirs(spec_dir_paths(mnt), spec_apply_mkdirs(spec_dir_paths(mnt), fs))
            == spec_apply_mkdirs(spec_dir_paths(mnt), fs),
{
    let d = spec_dir_paths(mnt);
    lemma_apply_mkdirs_union(d, fs);
    lemma_apply_mkdirs_union(d, fs.union(d.to_set()));
    assert(fs.union(d.to_set()).union(d.to_set()) =~= fs.union(d.to_set()));
}

// ---------------------------------------------------------------------------
// Configuration files: locale, hostname, accounts
// ---------------------------------------------------------------------------

/// The content of the locale configuration for a locale string: exactly
/// the `LC_ALL` line, then the `LANG` line.
pub open spec fn spec_locale_conf(locale: Seq<char>) -> Seq<char> {
    "LC_ALL="@ + locale + "\n"@ + "LANG="@ + locale + "\n"@
}

/// The locale configuration is exactly two lines: for a locale string
/// without a line break, splitting the file's content on line breaks gives
/// the `LC_ALL` line, the `LANG` line, and the empty piece after the final
/// break, and nothing else.
pub proof fn lemma_locale_conf_two_lines(locale: Seq<char>)
    requires
        forall|i: int| 0 <= i < locale.len() ==> locale[i] != '\n',
    ensures
        crate::text::spec_split(spec_locale_conf(locale), '\n') =~~= seq![
            "LC_ALL="@ + locale,
            "LANG="@ + locale,
            Seq::<char>::empty(),
        ],
{
    reveal_strlit("LC_ALL=");
    reveal_strlit("LANG=");
    reveal_strlit("\n");
    let s = spec_locale_conf(locale);
    let a = "LC_ALL="@ + locale;
    let b = "LANG="@ + locale;
    let k = a.len() as int;
    assert(s[k] == '\n');
    assert forall|i: int| 0 <= i < k implies s[i] != '\n' by {
        assert(s[i] == a[i]);
        if i < 7 {
            assert(a[i] == "LC_ALL="@[i]);
        } else {
            assert(a[i] == locale[i - 7]);
        }
    };
    crate::text::lemma_split_first_sep(s, '\n', k);
    let s2 = s.skip(k + 1);
    assert(s2 =~= b + "\n"@);
    let k2 = b.len() as int;
    assert(s2[k2] == '\n');
    assert forall|i: int| 0 <= i < k2 implies s2[i] != '\n' by {
        assert(s2[i] == b[i]);
        if i < 5 {
            assert(b[i] == "LANG="@[i]);
        } else {
            assert(b[i] == locale[i - 5]);
        }
    };
    crate::text::lemma_split_first_sep(s2, '\n', k2);
    assert(s2.skip(k2 + 1) =~= Seq::<char>::empty());
    assert(s.take(k) =~= a);
    assert(s2.take(k2) =~= b);
}

/// The content of the passwd file: the root account, then the admin
/// account with uid and gid 1000 and its home under `/home`.
pub open spec fn spec_passwd_file(admin: Seq<char>) -> Seq<char> {
    "root:x:0:0::/root:/bin/bash\n"@ + admin + ":x:1000:1000::/home/"@ + admin + ":/bin/bash\n"@
}

/// The content of the shadow file: one line for root and one for the
/// admin, both carrying the already-hashed admin credential verbatim and
/// the same last-change day, with the remaining fields empty.
pub open spec fn spec_shadow_file(admin: Seq<char>, hash: Seq<char>, last_change: nat) -> Seq<
    char,
> {
    "root:"@ + hash + ":"@ + dec_digits(last_change) + "::::::\n"@ + admin + ":"@ + hash + ":"@
        + dec_digits(last_change) + "::::::\n"@
}

/// The content of the group file: the root group, then the admin's own
/// group with gid 1000 listing the admin alone.
pub open spec fn spec_group_file(admin: Seq<char>) -> Seq<char> {
    "root:x:0:root\n"@ + admin + ":x:1000:"@ + admin + "\n"@
}

/// The plan of the user-creation stage.
#[derive(Clone, Debug)]
pub struct UsersPlan {
    /// The admin's home directory under the staging root, created with its
    /// parents.
    pub home_dir: String,
    /// The uid the home directory's ownership is set to.
    pub home_uid: u32,
    /// The gid the home directory's ownership is set to.
    pub home_gid: u32,
    /// The passwd file write.
    pub passwd: FileWrite,
    /// The permission bits of the passwd file.
    pub passwd_mode: u32,
    /// The shadow file write.
    pub shadow: FileWrite,
    /// The permission bits of the shadow file.
    pub shadow_mode: u32,
    /// The group file write.
    pub group: FileWrite,
    /// The permission bits of the group file.
    pub group_mode: u32,
}

impl InstallInfo {
    /// Plans the locale stage: requires that a language was selected —
    /// fatal otherwise — and writes its POSIX locale string for both the
    /// all-categories and the language settings.
    pub fn set_locales(&self, mnt: &str) -> (r: Result<FileWrite, InstallError>)
        ensures
            r is Ok <==> self.lang is Some,
            r is Err ==> r->Err_0 == InstallError::LanguageNotSet,
            r is Ok ==> r->Ok_0.path@ == mnt@ + "/etc/locale.conf"@,
            r is Ok ==> r->Ok_0.content@ == spec_locale_conf(self.lang->0.spec_locale()),
    {
        match &self.lang {
            Some(lang) => {
                let mut content = String::from_str("LC_ALL=");
                content.append(lang.get_locale());
                content.append("\n");
                content.append("LANG=");
                content.append(lang.get_locale());
                content.append("\n");
                Ok(FileWrite { path: join2(mnt, "/etc/locale.conf"), content })
            },
            None => Err(InstallError::LanguageNotSet),
        }
    }

    /// Plans the hostname stage: the hostname file holds exactly the
    /// configured hostname, with nothing appended.
    pub fn set_hostname(&self, mnt: &str) -> (r: FileWrite)
        ensures
            r.path@ == mnt@ + "/etc/hostname"@,
            r.content@ == self.hostname@,
    {
        FileWrite { path: join2(mnt, "/etc/hostname"), content: self.hostname.clone() }
    }

    /// Plans the user-creation stage: the admin's home directory chowned
    /// to uid and gid 1000, and the three account files with permission
    /// bits exactly 0644 (passwd), 0600 (shadow) and 0644 (group).
    /// `last_change` is the day the credentials were last changed, in days
    /// since the epoch.
    pub fn create_users(&self, mnt: &str, last_change: u32) -> (r: UsersPlan)
        ensures
            r.home_dir@ == mnt@ + "/home/"@ + self.admin_user@,
            r.home_uid == 1000,
            r.home_gid == 1000,
            r.passwd.path@ == mnt@ + "/etc/passwd"@,
            r.passwd.content@ == spec_passwd_file(self.admin_user@),
            r.passwd_mode == 0o644,
            r.shadow.path@ == mnt@ + "/etc/shadow"@,
            r.shadow.content@ == spec_shadow_file(
                self.admin_user@,
                self.admin_pass@,
                last_change as nat,
            ),
            r.shadow_mode == 0o600,
            r.group.path@ == mnt@ + "/etc/group"@,
            r.group.content@ == spec_group_file(self.admin_user@),
            r.group_mode == 0o644,
    {
        let mut home_dir = join2(mnt, "/home/");
        home_dir.append(self.admin_user.as_str());

        let mut passwd = String::from_str("root:x:0:0::/root:/bin/bash\n");
        passwd.append(self.admin_user.as_str());
        passwd.append(":x:1000:1000::/home/");
        passwd.append(self.admin_user.as_str());
        passwd.append(":/bin/bash\n");

        let day = u64_to_dec(last_change as u64);
        let mut shadow = String::from_str("root:");
        shadow.append(self.admin_pass.as_str());
        shadow.append(":");
        shadow.append(day.as_str());
        shadow.append("::::::\n");
        shadow.append(self.admin_user.as_str());
        shadow.append(":");
        shadow.append(self.admin_pass.as_str());
        shadow.append(":");
        shadow.append(day.as_str());
        shadow.append("::::::\n");

        let mut group = String::from_str("root:x:0:root\n");
        group.append(self.admin_user.as_str());
        group.append(":x:1000:");
        group.append(self.admin_user.as_str());
        group.append("\n");

        UsersPlan {
            home_dir,
            home_uid: 1000,
            home_gid: 1000,
            passwd: FileWrite { path: join2(mnt, "/etc/passwd"), content: passwd },
            passwd_mode: 0o644,
            shadow: FileWrite { path: join2(mnt, "/etc/shadow"), content: shadow },
            shadow_mode: 0o600,
            group: FileWrite { path: join2(mnt, "/etc/group"), content: group },
            group_mode: 0o644,
        }
    }
}

// ---------------------------------------------------------------------------
// Bootloader and unmounting
// ---------------------------------------------------------------------------

/// The fixed content of the boot-configuration file.
pub open spec fn spec_boot_config() -> Seq<char> {
    "set default=0\nset timeout=0\nmenuentry \"maestro\" {\n\tmultiboot2 /boot/maestro\n\tboot\n}\n"@
}

/// The plan of the bootloader stage: the installation command, then the
/// boot-configuration file write.
#[derive(Clone, Debug)]
pub struct BootloaderPlan {
    /// The bootloader-installation command.
    pub command: Command,
    /// The boot-configuration file written after the command succeeds.
    pub config: FileWrite,
}

impl InstallInfo {
    /// Plans the bootloader stage: install the bootloader for the BIOS
    /// platform with the staging root's boot directory onto the selected
    /// disk, then write the fixed boot configuration.
    pub fn install_bootloader(&self, mnt: &str) -> (r: BootloaderPlan)
        ensures
            r.command.program@ == "grub-install"@,
            r.command.args@.len() == 3,
            r.command.args@[0]@ == "--target=i386-pc"@,
            r.command.args@[1]@ == "--boot-directory="@ + mnt@ + "/boot"@,
            r.command.args@[2]@ == self.selected_disk@,
            r.config.path@ == mnt@ + "/boot/grub/grub.cfg"@,
            r.config.content@ == spec_boot_config(),
    {
        let mut boot_dir = String::from_str("--boot-directory=");
        boot_dir.append(mnt);
        boot_dir.append("/boot");
        let mut args: Vec<String> = Vec::new();
        args.push(String::from_str("--target=i386-pc"));
        args.push(boot_dir);
        args.push(self.selected_disk.clone());
        BootloaderPlan {
            command: Command { program: String::from_str("grub-install"), args },
            config: FileWrite {
                path: join2(mnt, "/boot/grub/grub.cfg"),
                content: String::from_str(
                    "set default=0\nset timeout=0\nmenuentry \"maestro\" {\n\tmultiboot2 /boot/maestro\n\tboot\n}\n",
                ),
            },
        }
    }

    /// Plans the unmount stage: recursively unmount everything under the
    /// staging root.
    pub fn unmount_filesystems(&self, mnt: &str) -> (r: Command)
        ensures
            r.program@ == "umount"@,
            r.args@.len() == 2,
            r.args@[0]@ == "-R"@,
            r.args@[1]@ == mnt@,
    {
        let mut args: Vec<String> = Vec::new();
        args.push(String::from_str("-R"));
        args.push(String::from_str(mnt));
        Command { program: String::from_str("umount"), args }
    }
}

// ---------------------------------------------------------------------------
// The automatic whole-disk layout
// ---------------------------------------------------------------------------

/// Builds the automatic whole-disk layout: a BIOS-boot partition, an EFI
/// system partition mounted at `/boot`, and a Linux root partition over
/// the rest of the disk. `disk_size` is the disk's size in sectors and
/// must leave room for the two boot partitions.
pub fn auto_partition_layout(disk_size: u64) -> (r: Vec<PartitionDesc>)
    requires
        disk_size >= 266240,
    ensures
        r@.len() == 3,
        r@[0]@.start == 2048 && r@[0]@.size == 2048,
        r@[0]@.part_type == "21686148-6449-6E6F-744E-656564454649"@,
        !r@[0]@.bootable && r@[0]@.mount_path is None,
        r@[1]@.start == 4096 && r@[1]@.size == 262144,
        r@[1]@.part_type == "C12A7328-F81F-11D2-BA4B-00A0C93EC93B"@,
        r@[1]@.bootable && r@[1]@.mount_path == Some("/boot"@),
        r@[2]@.start == 266240 && r@[2]@.size == disk_size - 266240,
        r@[2]@.part_type == "44479540-F297-41B2-9AF7-D131D5F0458A"@,
        !r@[2]@.bootable && r@[2]@.mount_path == Some("/"@),
{
    let bios_boot_part = PartitionDesc {
        start: 2048,
        size: 2048,
        // BIOS boot
        part_type: String::from_str("21686148-6449-6E6F-744E-656564454649"),
        bootable: false,
        mount_path: None,
    };
    let boot_part = PartitionDesc {
        start: bios_boot_part.start + bios_boot_part.size,
        size: 262144,
        // EFI System
        part_type: String::from_str("C12A7328-F81F-11D2-BA4B-00A0C93EC93B"),
        bootable: true,
        mount_path: Some(String::from_str("/boot")),
    };
    let root_start = boot_part.start + boot_part.size;
    let root_part = PartitionDesc {
        start: root_start,
        size: disk_size - root_start,
        // Linux root (x86)
        part_type: String::from_str("44479540-F297-41B2-9AF7-D131D5F0458A"),
        bootable: false,
        mount_path: Some(String::from_str("/")),
    };
    let mut r: Vec<PartitionDesc> = Vec::new();
    r.push(bios_boot_part);
    r.push(boot_part);
    r.push(root_part);
    r
}

} // verus!

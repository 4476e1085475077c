//! Partition and disk model: the textual partition-script codec used when
//! listing existing disks, and a human-readable byte-size rendering.
//!
//! A partition script is the line format produced by `serialize` and read
//! back by `deserialize`: a header ended by a blank line, then one line per
//! partition of the shape `<dev><index> : name=value, name=value, ...`.

use vstd::prelude::*;
use crate::text::{
    dec_digits, dec_val, is_digit, parse_u64, spec_split, spec_trim, split_on, str_eq, trim,
    u64_to_dec,
};

verus! {

/// Information about one partition, as read from or written to a partition
/// script.
#[derive(Clone, Debug)]
pub struct Partition {
    /// The start offset in sectors.
    pub start: u64,
    /// The size of the partition in sectors.
    pub size: u64,
    /// The partition type.
    pub part_type: String,
    /// The partition's UUID.
    pub uuid: Option<String>,
    /// Tells whether the partition is bootable.
    pub bootable: bool,
}

/// The mathematical value of a [`Partition`].
pub struct PartitionV {
    pub start: u64,
    pub size: u64,
    pub part_type: Seq<char>,
    pub uuid: Option<Seq<char>>,
    pub bootable: bool,
}

impl View for Partition {
    type V = PartitionV;

    open spec fn view(&self) -> PartitionV {
        PartitionV {
            start: self.start,
            size: self.size,
            part_type: self.part_type@,
            uuid: if self.uuid is Some {
                Some(self.uuid->0@)
            } else {
                None
            },
            bootable: self.bootable,
        }
    }
}

/// The partition value every script line starts from: all fields unset.
pub open spec fn spec_default_partition() -> PartitionV {
    PartitionV { start: 0, size: 0, part_type: Seq::empty(), uuid: None, bootable: false }
}

impl Default for Partition {
    /// Returns a partition with every field unset.
    fn default() -> (r: Self)
        ensures
            r@ == spec_default_partition(),
    {
        let r = Partition {
            start: 0,
            size: 0,
            part_type: String::new(),
            uuid: None,
            bootable: false,
        };
        proof {
            assert(r@ == spec_default_partition());
        }
        r
    }
}

impl PartialEq for Partition {
    fn eq(&self, o: &Partition) -> bool {
        let uuid_eq = match (&self.uuid, &o.uuid) {
            (Some(a), Some(b)) => str_eq(a.as_str(), b.as_str()),
            (None, None) => true,
            _ => false,
        };
        self.start == o.start && self.size == o.size && str_eq(
            self.part_type.as_str(),
            o.part_type.as_str(),
        ) && uuid_eq && self.bootable == o.bootable
    }
}

impl vstd::std_specs::cmp::PartialEqSpecImpl for Partition {
    open spec fn obeys_eq_spec() -> bool {
        true
    }

    open spec fn eq_spec(&self, o: &Partition) -> bool {
        self@ == o@
    }
}

/// The rendering of one partition inside a script line: the comma-separated
/// `name=value` list.
pub open spec fn spec_partition_display(p: PartitionV) -> Seq<char> {
    "start="@ + dec_digits(p.start as nat) + ", size="@ + dec_digits(p.size as nat) + ", type="@
        + p.part_type + (if p.bootable {
        ", bootable"@
    } else {
        Seq::<char>::empty()
    }) + (if p.uuid is Some {
        ", uuid="@ + p.uuid->0
    } else {
        Seq::<char>::empty()
    })
}

/// One line of the partitions section of a script.
pub open spec fn spec_script_line(dev: Seq<char>, i: nat, p: PartitionV) -> Seq<char> {
    dev + dec_digits(i) + " : "@ + spec_partition_display(p) + "\n"@
}

/// The header of a script: the device, the unit, and a blank line.
pub open spec fn spec_script_header(dev: Seq<char>) -> Seq<char> {
    "device: "@ + dev + "\n"@ + "unit: sectors\n"@ + "\n"@
}

/// The first `n` partition lines of a script.
pub open spec fn spec_script_lines(dev: Seq<char>, parts: Seq<PartitionV>, n: int) -> Seq<char>
    decreases n,
{
    if n <= 0 {
        Seq::empty()
    } else {
        spec_script_lines(dev, parts, n - 1) + spec_script_line(dev, (n - 1) as nat, parts[n - 1])
    }
}

/// A whole partition script.
pub open spec fn spec_serialize(dev: Seq<char>, parts: Seq<PartitionV>) -> Seq<char> {
    spec_script_header(dev) + spec_script_lines(dev, parts, parts.len() as int)
}

impl Partition {
    /// Renders this partition as the comma-separated `name=value` list used
    /// in script lines.
    pub fn to_display_string(&self) -> (r: String)
        ensures
            r@ == spec_partition_display(self@),
    {
        let mut s = String::from_str("start=");
        s.append(u64_to_dec(self.start).as_str());
        s.append(", size=");
        s.append(u64_to_dec(self.size).as_str());
        s.append(", type=");
        s.append(self.part_type.as_str());
        if self.bootable {
            s.append(", bootable");
        }
        if let Some(uuid) = &self.uuid {
            s.append(", uuid=");
            s.append(uuid.as_str());
        }
        s
    }

    /// Serializes a partitions list into a script.
    ///
    /// Arguments:
    /// - `dev` is the path to the device file of the disk.
    /// - `parts` is the list of partitions.
    ///
    /// The function returns the resulting script.
    pub fn serialize(dev: &str, parts: &[Self]) -> (r: String)
        ensures
            r@ == spec_serialize(dev@, parts@.map_values(|p: Partition| p@)),
    {
        let ghost pviews = parts@.map_values(|p: Partition| p@);
        let mut script = String::from_str("device: ");
        script.append(dev);
        script.append("\n");
        script.append("unit: sectors\n");
        script.append("\n");
        proof {
            assert(script@ == spec_script_header(dev@));
        }
        let mut i: usize = 0;
        while i < parts.len()
            invariant
                0 <= i <= parts.len(),
                pviews == parts@.map_values(|p: Partition| p@),
                script@ == spec_script_header(dev@) + spec_script_lines(dev@, pviews, i as int),
            decreases parts.len() - i,
        {
            let p = &parts[i];
            script.append(dev);
            script.append(u64_to_dec(i as u64).as_str());
            script.append(" : ");
            script.append(p.to_display_string().as_str());
            script.append("\n");
            proof {
                assert(pviews[i as int] == parts@[i as int]@);
            }
            i = i + 1;
        }
        script
    }
}

// ---------------------------------------------------------------------------
// Script parsing
// ---------------------------------------------------------------------------

/// A non-empty digit string whose value fits in a `u64`.
pub open spec fn valid_u64_digits(s: Seq<char>) -> bool {
    s.len() > 0 && (forall|i: int| 0 <= i < s.len() ==> is_digit(#[trigger] s[i])) && dec_val(s)
        <= u64::MAX
}

/// Applies one `name=value` field of a script line to a partition record.
/// An unknown name is treated as the valueless `bootable` flag; scripts
/// admitted by [`spec_field_wf`] hold no other names.
pub open spec fn spec_apply_field(p: PartitionV, piece: Seq<char>) -> PartitionV {
    let kv = spec_split(piece, '=');
    let name = spec_trim(kv[0]);
    if name == "start"@ {
        PartitionV { start: dec_val(spec_trim(kv[1])) as u64, ..p }
    } else if name == "size"@ {
        PartitionV { size: dec_val(spec_trim(kv[1])) as u64, ..p }
    } else if name == "type"@ {
        PartitionV { part_type: spec_trim(kv[1]), ..p }
    } else if name == "uuid"@ {
        PartitionV { uuid: Some(spec_trim(kv[1])), ..p }
    } else {
        PartitionV { bootable: true, ..p }
    }
}

/// A well-formed `name=value` field: a known name, with a value where the
/// name requires one, numeric where the name requires a number.
pub open spec fn spec_field_wf(piece: Seq<char>) -> bool {
    let kv = spec_split(piece, '=');
    let name = spec_trim(kv[0]);
    &&& (name == "start"@ || name == "size"@ || name == "type"@ || name == "uuid"@ || name
        == "bootable"@)
    &&& ((name == "start"@ || name == "size"@) ==> kv.len() >= 2 && valid_u64_digits(
        spec_trim(kv[1]),
    ))
    &&& ((name == "type"@ || name == "uuid"@) ==> kv.len() >= 2)
}

/// A well-formed partition line: a partition name before the first colon,
/// then a comma-separated list of well-formed fields.
pub open spec fn spec_line_wf(line: Seq<char>) -> bool {
    let secs = spec_split(line, ':');
    &&& secs.len() >= 2
    &&& {
        let pieces = spec_split(secs[1], ',');
        forall|i: int| 0 <= i < pieces.len() ==> spec_field_wf(#[trigger] pieces[i])
    }
}

/// The partition described by one script line: all its fields applied in
/// order to an unset partition record.
pub open spec fn spec_parse_line(line: Seq<char>) -> PartitionV {
    let secs = spec_split(line, ':');
    let pieces = spec_split(secs[1], ',');
    pieces.fold_left(
        spec_default_partition(),
        |p: PartitionV, piece: Seq<char>| spec_apply_field(p, piece),
    )
}

/// The lines after the header: everything past the first blank line, or
/// nothing when no line is blank.
pub open spec fn spec_body_lines(lines: Seq<Seq<char>>) -> Seq<Seq<char>>
    decreases lines.len(),
{
    if lines.len() == 0 {
        Seq::empty()
    } else if spec_trim(lines[0]).len() == 0 {
        lines.drop_first()
    } else {
        spec_body_lines(lines.drop_first())
    }
}

/// The partitions described by a sequence of body lines; blank lines are
/// skipped.
pub open spec fn spec_parse_lines(body: Seq<Seq<char>>) -> Seq<PartitionV>
    decreases body.len(),
{
    if body.len() == 0 {
        Seq::empty()
    } else if spec_trim(body[0]).len() == 0 {
        spec_parse_lines(body.drop_first())
    } else {
        seq![spec_parse_line(body[0])] + spec_parse_lines(body.drop_first())
    }
}

/// A well-formed script: every non-blank line after the header parses.
pub open spec fn spec_script_wf(s: Seq<char>) -> bool {
    let body = spec_body_lines(spec_split(s, '\n'));
    forall|i: int|
        0 <= i < body.len() ==> (spec_trim(#[trigger] body[i]).len() == 0 || spec_line_wf(body[i]))
}

/// The partition list encoded by a script.
pub open spec fn spec_parse_script(s: Seq<char>) -> Seq<PartitionV> {
    spec_parse_lines(spec_body_lines(spec_split(s, '\n')))
}

/// When the first `k` lines are non-blank and line `k` is blank, the body is
/// everything after line `k`.
proof fn lemma_body_lines_at(lines: Seq<Seq<char>>, k: int)
    requires
        0 <= k < lines.len(),
        spec_trim(lines[k]).len() == 0,
        forall|i: int| 0 <= i < k ==> spec_trim(#[trigger] lines[i]).len() != 0,
    ensures
        spec_body_lines(lines) =~~= lines.skip(k + 1),
    decreases k,
{
    if k == 0 {
        assert(lines.skip(1) =~~= lines.drop_first());
    } else {
        lemma_body_lines_at(lines.drop_first(), k - 1);
        assert(lines.drop_first().skip(k) =~~= lines.skip(k + 1));
    }
}

/// With no blank line at all, the body is empty.
proof fn lemma_body_lines_none(lines: Seq<Seq<char>>)
    requires
        forall|i: int| 0 <= i < lines.len() ==> spec_trim(#[trigger] lines[i]).len() != 0,
    ensures
        spec_body_lines(lines) =~~= Seq::<Seq<char>>::empty(),
    decreases lines.len(),
{
    if lines.len() != 0 {
        lemma_body_lines_none(lines.drop_first());
    }
}

/// Applies one `name=value` field of a script line to a partition.
fn apply_field(part: &mut Partition, piece: &str)
    requires
        spec_field_wf(piece@),
    ensures
        final(part)@ == spec_apply_field(old(part)@, piece@),
{
    let ghost kv = spec_split(piece@, '=');
    let kvs = split_on(piece, '=');
    proof {
        crate::text::lemma_split_len(piece@, '=');
        assert(kvs@[0]@ == kv[0]);
    }
    let name = trim(kvs[0].as_str());
    if str_eq(name, "start") {
        proof {
            assert(name@ == spec_trim(kv[0]));
            assert(kv.len() >= 2);
            assert(kvs@.len() == kv.len());
            assert(kvs@[1]@ == kv[1]);
        }
        let v = trim(kvs[1].as_str());
        match parse_u64(v) {
            Some(x) => {
                part.start = x;
            },
            None => {
                proof {
                    assert(false);
                }
            },
        }
    } else if str_eq(name, "size") {
        proof {
            assert(name@ == spec_trim(kv[0]));
            assert(kv.len() >= 2);
            assert(kvs@.len() == kv.len());
            assert(kvs@[1]@ == kv[1]);
        }
        let v = trim(kvs[1].as_str());
        match parse_u64(v) {
            Some(x) => {
                part.size = x;
            },
            None => {
                proof {
                    assert(false);
                }
            },
        }
    } else if str_eq(name, "type") {
        proof {
            assert(name@ == spec_trim(kv[0]));
            assert(kv.len() >= 2);
            assert(kvs@.len() == kv.len());
            assert(kvs@[1]@ == kv[1]);
        }
        let v = trim(kvs[1].as_str());
        part.part_type = v.to_owned();
    } else if str_eq(name, "uuid") {
        proof {
            assert(name@ == spec_trim(kv[0]));
            assert(kv.len() >= 2);
            assert(kvs@.len() == kv.len());
            assert(kvs@[1]@ == kv[1]);
        }
        let v = trim(kvs[1].as_str());
        part.uuid = Some(v.to_owned());
    } else {
        part.bootable = true;
    }
}

/// Parses one partition line of a script.
fn parse_line(line: &str) -> (r: Partition)
    requires
        spec_line_wf(line@),
    ensures
        r@ == spec_parse_line(line@),
{
    let ghost secs = spec_split(line@, ':');
    let secv = split_on(line, ':');
    proof {
        assert(secv@[1]@ == secs[1]);
    }
    let ghost pieces = spec_split(secs[1], ',');
    let piecev = split_on(secv[1].as_str(), ',');
    let ghost f = |p: PartitionV, piece: Seq<char>| spec_apply_field(p, piece);
    let mut part = Partition::default();
    let n = piecev.len();
    let mut i: usize = 0;
    while i < n
        invariant
            0 <= i <= n == pieces.len(),
            piecev@.len() == pieces.len(),
            forall|k: int| 0 <= k < piecev@.len() ==> #[trigger] piecev@[k]@ == pieces[k],
            spec_line_wf(line@),
            secs == spec_split(line@, ':'),
            pieces == spec_split(secs[1], ','),
            f == (|p: PartitionV, piece: Seq<char>| spec_apply_field(p, piece)),
            part@ == pieces.take(i as int).fold_left(spec_default_partition(), f),
        decreases n - i,
    {
        proof {
            assert(piecev@[i as int]@ == pieces[i as int]);
            assert(spec_field_wf(pieces[i as int]));
            assert(pieces.take(i + 1).drop_last() =~= pieces.take(i as int));
            assert(pieces.take(i + 1).last() == pieces[i as int]);
        }
        apply_field(&mut part, piecev[i].as_str());
        i = i + 1;
    }
    proof {
        assert(pieces.take(n as int) =~= pieces);
    }
    part
}

impl Partition {
    /// Deserializes a partitions list from a given script.
    ///
    /// Arguments:
    /// - `data` is the script.
    ///
    /// The function returns the list of partitions.
    pub fn deserialize(data: &str) -> (r: Vec<Self>)
        requires
            spec_script_wf(data@),
        ensures
            r@.map_values(|p: Partition| p@) == spec_parse_script(data@),
    {
        let ghost lviews = spec_split(data@, '\n');
        let lines = split_on(data, '\n');
        let n = lines.len();

        // Skip the header: everything up to the first blank line.
        let mut bi: usize = 0;
        loop
            invariant
                0 <= bi <= n == lviews.len(),
                lines@.len() == lviews.len(),
                forall|k: int| 0 <= k < lines@.len() ==> #[trigger] lines@[k]@ == lviews[k],
                forall|j: int| 0 <= j < bi ==> spec_trim(#[trigger] lviews[j]).len() != 0,
            ensures
                0 <= bi <= n,
                forall|j: int| 0 <= j < bi ==> spec_trim(#[trigger] lviews[j]).len() != 0,
                bi < n ==> spec_trim(lviews[bi as int]).len() == 0,
            decreases n - bi,
        {
            if bi == n {
                break ;
            }
            let t = trim(lines[bi].as_str());
            proof {
                assert(lines@[bi as int]@ == lviews[bi as int]);
            }
            if t.unicode_len() == 0 {
                break ;
            }
            bi = bi + 1;
        }
        if bi == n {
            proof {
                lemma_body_lines_none(lviews);
            }
            return Vec::new();
        }
        proof {
            lemma_body_lines_at(lviews, bi as int);
        }

        // Parse the partition lines.
        let ghost body = lviews.skip(bi + 1);
        let mut parts: Vec<Partition> = Vec::new();
        let mut j: usize = bi + 1;
        while j < n
            invariant
                bi + 1 <= j <= n == lviews.len(),
                lines@.len() == lviews.len(),
                forall|k: int| 0 <= k < lines@.len() ==> #[trigger] lines@[k]@ == lviews[k],
                body == lviews.skip(bi + 1),
                spec_parse_lines(body) == parts@.map_values(|p: Partition| p@)
                    + spec_parse_lines(lviews.skip(j as int)),
                forall|i: int|
                    0 <= i < body.len() ==> (spec_trim(#[trigger] body[i]).len() == 0
                        || spec_line_wf(body[i])),
            decreases n - j,
        {
            let ghost rest = lviews.skip(j as int);
            proof {
                assert(lines@[j as int]@ == lviews[j as int]);
                assert(rest[0] == lviews[j as int]);
                assert(rest.drop_first() =~= lviews.skip(j + 1));
                assert(body[j - bi - 1] == lviews[j as int]);
            }
            let t = trim(lines[j].as_str());
            if t.unicode_len() != 0 {
                let p = parse_line(lines[j].as_str());
                parts.push(p);
                proof {
                    assert(parts@.map_values(|p: Partition| p@) =~= parts@.drop_last().map_values(
                        |p: Partition| p@,
                    ).push(p@));
                }
            }
            j = j + 1;
        }
        proof {
            assert(lviews.skip(n as int).len() == 0);
            assert(spec_parse_lines(body) =~= parts@.map_values(|p: Partition| p@));
        }
        parts
    }
}

// ---------------------------------------------------------------------------
// Byte sizes
// ---------------------------------------------------------------------------

/// A number of bytes.
pub struct ByteSize(pub u64);

/// The rendering of a byte count `n`, divided down by full multiples of 1024
/// with `o` binary orders of magnitude already applied.
pub open spec fn spec_size_display(n: nat, o: nat) -> Seq<char>
    decreases n,
{
    if n < 1024 {
        dec_digits(n) + " "@ + spec_order_suffix(o)
    } else {
        spec_size_display(n / 1024, o + 1)
    }
}

/// The unit suffix for a binary order of magnitude.
pub open spec fn spec_order_suffix(o: nat) -> Seq<char> {
    if o == 0 {
        "bytes"@
    } else if o == 1 {
        "KiB"@
    } else if o == 2 {
        "MiB"@
    } else if o == 3 {
        "GiB"@
    } else if o == 4 {
        "TiB"@
    } else if o == 5 {
        "PiB"@
    } else if o == 6 {
        "EiB"@
    } else if o == 7 {
        "ZiB"@
    } else if o == 8 {
        "YiB"@
    } else {
        "bytes"@
    }
}

impl ByteSize {
    /// Creates a size from a given number of sectors of 512 bytes.
    pub fn from_sectors_count(cnt: u64) -> (r: Self)
        requires
            cnt * 512 <= u64::MAX,
        ensures
            r.0 == cnt * 512,
    {
        Self(cnt * 512)
    }

    /// Renders the size with the largest binary unit that keeps a nonzero
    /// integer part, e.g. `2 KiB`.
    pub fn to_display_string(&self) -> (r: String)
        ensures
            r@ == spec_size_display(self.0 as nat, 0),
    {
        let mut m: u64 = self.0;
        let mut k: u64 = 0;
        while m >= 1024
            invariant
                spec_size_display(self.0 as nat, 0) == spec_size_display(m as nat, k as nat),
                m <= u64::MAX,
                k <= 6,
                k > 0 ==> m <= u64::MAX / 1024,
                k > 1 ==> m <= u64::MAX / 1024 / 1024,
                k > 2 ==> m <= u64::MAX / 1024 / 1024 / 1024,
                k > 3 ==> m <= u64::MAX / 1024 / 1024 / 1024 / 1024,
                k > 4 ==> m <= u64::MAX / 1024 / 1024 / 1024 / 1024 / 1024,
                k > 5 ==> m <= 16,
            decreases m,
        {
            m = m / 1024;
            k = k + 1;
        }
        let suffix = match k {
            0 => "bytes",
            1 => "KiB",
            2 => "MiB",
            3 => "GiB",
            4 => "TiB",
            5 => "PiB",
            _ => "EiB",
        };
        proof {
            assert(suffix@ == spec_order_suffix(k as nat));
        }
        let mut s = u64_to_dec(m);
        s.append(" ");
        s.append(suffix);
        s
    }
}

// ---------------------------------------------------------------------------
// Disks
// ---------------------------------------------------------------------------

/// A disk: a device path, a size in sectors, and the partitions read from
/// it.
pub struct Disk {
    /// The path to the disk's device file.
    pub dev_path: String,
    /// The size of the disk in number of sectors.
    pub size: u64,
    /// The disk's partitions.
    pub partitions: Vec<Partition>,
}

/// Whether a device path names a whole disk rather than one of its
/// partitions: an `sd` device with no digit (`/dev/sda`, not `/dev/sda1`) or
/// an `nvme` device with no partition suffix.
pub open spec fn spec_disk_path_valid(p: Seq<char>) -> bool {
    ||| ("/dev/sd"@.is_prefix_of(p) && (forall|i: int| 0 <= i < p.len() ==> !is_digit(#[trigger] p[i])))
    ||| ("/dev/nvme0n"@.is_prefix_of(p) && (forall|i: int| 0 <= i < p.len() ==> #[trigger] p[i] != 'p'))
}

/// Whether `pre` is a prefix of `s`, compared character by character.
fn starts_with(s: &str, pre: &str) -> (r: bool)
    ensures
        r == pre@.is_prefix_of(s@),
{
    let np = pre.unicode_len();
    let ns = s.unicode_len();
    if np > ns {
        proof {
            assert(!pre@.is_prefix_of(s@));
        }
        return false;
    }
    let mut i: usize = 0;
    while i < np
        invariant
            0 <= i <= np == pre@.len(),
            np <= ns == s@.len(),
            forall|j: int| 0 <= j < i ==> s@[j] == pre@[j],
        decreases np - i,
    {
        if s.get_char(i) != pre.get_char(i) {
            proof {
                assert(s@.subrange(0, np as int)[i as int] != pre@[i as int]);
            }
            return false;
        }
        i = i + 1;
    }
    proof {
        assert(s@.subrange(0, np as int) =~= pre@);
    }
    true
}

impl Disk {
    /// Builds a disk value from its device path, its size in sectors, and
    /// its partition list.
    pub fn new(dev_path: String, size: u64, partitions: Vec<Partition>) -> (r: Self)
        ensures
            r.dev_path == dev_path,
            r.size == size,
            r.partitions == partitions,
    {
        Self { dev_path, size, partitions }
    }

    /// Tells whether the device file at the given path is a valid disk.
    pub fn is_valid(path: &str) -> (r: bool)
        ensures
            r == spec_disk_path_valid(path@),
    {
        if starts_with(path, "/dev/sd") {
            let n = path.unicode_len();
            let mut i: usize = 0;
            let mut has_digit = false;
            while i < n
                invariant
                    0 <= i <= n == path@.len(),
                    has_digit == exists|j: int| 0 <= j < i && is_digit(#[trigger] path@[j]),
                decreases n - i,
            {
                let c = path.get_char(i);
                let v = c as u32;
                if v >= 48 && v <= 57 {
                    has_digit = true;
                }
                i = i + 1;
            }
            if !has_digit {
                return true;
            }
        }
        if starts_with(path, "/dev/nvme0n") {
            let n = path.unicode_len();
            let mut i: usize = 0;
            let mut has_p = false;
            while i < n
                invariant
                    0 <= i <= n == path@.len(),
                    has_p == exists|j: int| 0 <= j < i && #[trigger] path@[j] == 'p',
                decreases n - i,
            {
                if path.get_char(i) == 'p' {
                    has_p = true;
                }
                i = i + 1;
            }
            if !has_p {
                return true;
            }
        }
        false
    }

    /// Returns the path to the device file of the disk.
    pub fn get_dev_path(&self) -> (r: &str)
        ensures
            r@ == self.dev_path@,
    {
        self.dev_path.as_str()
    }

    /// Returns the size of the disk in number of sectors.
    pub fn get_size(&self) -> (r: u64)
        ensures
            r == self.size,
    {
        self.size
    }
}

} // verus!

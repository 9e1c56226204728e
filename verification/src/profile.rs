//! TB execution profiling and the AOT profile data format.
//!
//! A profile file is the 8-byte magic `TCGPROF\0`, the format version and
//! the hotness threshold as little-endian `u32`s, the number of entries as a
//! little-endian `u64`, then each entry as two little-endian `u64`s: the
//! file offset of the TB and its execution count.

use std::collections::HashSet;
use std::sync::atomic::AtomicU64;

use vstd::prelude::*;

verus! {

broadcast use vstd::std_specs::hash::group_hash_axioms;

/// Per-TB execution counter.
pub struct TbProfile {
    pub exec_count: AtomicU64,
}

impl TbProfile {
    /// A counter starting at zero. Verus models std's atomics without their
    /// value, so no clause states the starting count.
    pub fn new() -> Self {
        TbProfile { exec_count: AtomicU64::new(0) }
    }
}

/// Execution count from which a TB counts as hot.
pub const DEFAULT_HOT_THRESHOLD: u64 = 10;

/// Version of the profile format.
pub const PROFILE_VERSION: u32 = 2;

/// The magic bytes `TCGPROF\0` that open a profile file.
pub open spec fn profile_magic() -> Seq<u8> {
    seq![0x54u8, 0x43u8, 0x47u8, 0x50u8, 0x52u8, 0x4fu8, 0x46u8, 0x00u8]
}

/// One profiled TB.
#[derive(Debug, Clone, Copy)]
pub struct ProfileEntry {
    pub file_offset: u64,
    pub exec_count: u64,
}

/// Profile of a run: the threshold it was taken with and its entries.
#[derive(Debug, Clone)]
pub struct ProfileData {
    pub threshold: u32,
    pub entries: Vec<ProfileEntry>,
}

/// Why profile bytes could not be read.
#[derive(Debug, Clone, Copy, PartialEq, Eq, Structural)]
pub enum ProfileError {
    /// The data ends before a field it announces.
    Truncated,
    /// The first eight bytes are not the magic.
    BadMagic,
    /// The version is not `PROFILE_VERSION`.
    BadVersion,
}

/// `256^n`.
pub open spec fn byte_pow(n: nat) -> nat
    decreases n,
{
    if n == 0 {
        1
    } else {
        256 * byte_pow((n - 1) as nat)
    }
}

/// The `n` low bytes of `v`, least significant first.
pub open spec fn le_bytes(v: nat, n: nat) -> Seq<u8>
    decreases n,
{
    if n == 0 {
        Seq::empty()
    } else {
        seq![(v % 256) as u8] + le_bytes(v / 256, (n - 1) as nat)
    }
}

/// The number that little-endian bytes stand for.
pub open spec fn le_value(b: Seq<u8>) -> nat
    decreases b.len(),
{
    if b.len() == 0 {
        0
    } else {
        b[0] as nat + 256 * le_value(b.drop_first())
    }
}

/// The bytes of the entries, in order.
pub open spec fn entries_bytes(es: Seq<ProfileEntry>) -> Seq<u8>
    decreases es.len(),
{
    if es.len() == 0 {
        Seq::empty()
    } else {
        entries_bytes(es.drop_last()) + le_bytes(es.last().file_offset as nat, 8) + le_bytes(
            es.last().exec_count as nat,
            8,
        )
    }
}

/// The bytes of a profile with the given threshold and entries.
pub open spec fn profile_bytes(threshold: u32, es: Seq<ProfileEntry>) -> Seq<u8> {
    profile_magic() + le_bytes(PROFILE_VERSION as nat, 4) + le_bytes(threshold as nat, 4)
        + le_bytes(es.len(), 8) + entries_bytes(es)
}

/// The little-endian number in `b[start .. start + n]`.
pub open spec fn field(b: Seq<u8>, start: int, n: int) -> nat {
    le_value(b.subrange(start, start + n))
}

/// The `i`-th entry stored in profile bytes.
pub open spec fn entry_at(b: Seq<u8>, i: int) -> ProfileEntry {
    ProfileEntry {
        file_offset: field(b, 24 + 16 * i, 8) as u64,
        exec_count: field(b, 32 + 16 * i, 8) as u64,
    }
}

/// What reading profile bytes gives: the threshold and entries, or the
/// first problem met when reading the fields in order.
pub open spec fn parse_profile_spec(b: Seq<u8>) -> Result<(u32, Seq<ProfileEntry>), ProfileError> {
    if b.len() < 8 {
        Err(ProfileError::Truncated)
    } else if b.subrange(0, 8) != profile_magic() {
        Err(ProfileError::BadMagic)
    } else if b.len() < 12 {
        Err(ProfileError::Truncated)
    } else if field(b, 8, 4) != PROFILE_VERSION {
        Err(ProfileError::BadVersion)
    } else if b.len() < 24 {
        Err(ProfileError::Truncated)
    } else if b.len() < 24 + 16 * field(b, 16, 8) {
        Err(ProfileError::Truncated)
    } else {
        Ok(
            (
                field(b, 12, 4) as u32,
                Seq::new(field(b, 16, 8), |i: int| entry_at(b, i)),
            ),
        )
    }
}

proof fn lemma_le_value_bound(b: Seq<u8>)
    ensures
        le_value(b) < byte_pow(b.len()),
    decreases b.len(),
{
    if b.len() > 0 {
        lemma_le_value_bound(b.drop_first());
        let r = le_value(b.drop_first());
        let p = byte_pow(b.drop_first().len());
        assert(b[0] as nat + 256 * r < 256 * p) by (nonlinear_arith)
            requires
                r < p,
                b[0] < 256,
        ;
    }
}

proof fn lemma_le_roundtrip(v: nat, n: nat)
    requires
        v < byte_pow(n),
    ensures
        le_value(le_bytes(v, n)) == v,
        le_bytes(v, n).len() == n,
    decreases n,
{
    if n > 0 {
        assert(v / 256 < byte_pow((n - 1) as nat)) by (nonlinear_arith)
            requires
                v < 256 * byte_pow((n - 1) as nat),
        ;
        lemma_le_roundtrip(v / 256, (n - 1) as nat);
        let b = le_bytes(v, n);
        assert(b.drop_first() =~= le_bytes(v / 256, (n - 1) as nat));
    }
}

proof fn lemma_pow_values()
    ensures
        byte_pow(4) == 0x1_0000_0000,
        byte_pow(8) == 0x1_0000_0000_0000_0000,
{
    reveal_with_fuel(byte_pow, 9);
}

/// Appends the `n` low bytes of `v`, least significant first.
fn push_le(out: &mut Vec<u8>, v: u64, n: usize)
    ensures
        final(out)@ == old(out)@ + le_bytes(v as nat, n as nat),
    decreases n,
{
    if n == 0 {
        assert(old(out)@ + le_bytes(v as nat, 0) =~= old(out)@);
        return ;
    }
    out.push((v % 256) as u8);
    push_le(out, v / 256, n - 1);
    assert(final(out)@ =~= old(out)@ + le_bytes(v as nat, n as nat));
}

/// The little-endian number in `b[start .. start + n]`, for `n <= 8`.
fn read_le(b: &[u8], start: usize, n: usize) -> (r: u64)
    requires
        n <= 8,
        start + n <= b@.len(),
    ensures
        r == field(b@, start as int, n as int),
{
    let ghost s = b@.subrange(start as int, start + n);
    let mut acc: u64 = 0;
    let mut k: usize = n;
    proof {
        lemma_pow_values();
    }
    while k > 0
        invariant
            k <= n <= 8,
            start + n <= b.len(),
            s == b@.subrange(start as int, start + n),
            acc == le_value(s.subrange(k as int, n as int)),
            acc < byte_pow((n - k) as nat),
            byte_pow(8) == 0x1_0000_0000_0000_0000,
        decreases k,
    {
        k -= 1;
        let byte = b[start + k];
        proof {
            let tail = s.subrange(k as int, n as int);
            assert(tail.drop_first() =~= s.subrange(k + 1, n as int));
            assert(tail[0] == byte);
            lemma_pow_mono((n - k) as nat, 8);
            assert(acc * 256 + byte < byte_pow((n - k) as nat)) by (nonlinear_arith)
                requires
                    acc < byte_pow((n - k - 1) as nat),
                    byte < 256,
                    byte_pow((n - k) as nat) == 256 * byte_pow((n - k - 1) as nat),
            ;
        }
        acc = acc * 256 + byte as u64;
    }
    assert(s.subrange(0, n as int) =~= s);
    acc
}

proof fn lemma_pow_mono(a: nat, b: nat)
    requires
        a <= b,
    ensures
        byte_pow(a) <= byte_pow(b),
    decreases b,
{
    if a < b {
        lemma_pow_mono(a, (b - 1) as nat);
    }
}

impl ProfileData {
    /// The bytes of the profile file.
    pub fn to_bytes(&self) -> (r: Vec<u8>)
        ensures
            r@ == profile_bytes(self.threshold, self.entries@),
    {
        let mut out: Vec<u8> = Vec::new();
        out.push(0x54);
        out.push(0x43);
        out.push(0x47);
        out.push(0x50);
        out.push(0x52);
        out.push(0x4f);
        out.push(0x46);
        out.push(0x00);
        assert(out@ =~= profile_magic());
        push_le(&mut out, PROFILE_VERSION as u64, 4);
        push_le(&mut out, self.threshold as u64, 4);
        push_le(&mut out, self.entries.len() as u64, 8);
        let ghost head = out@;
        let mut i: usize = 0;
        while i < self.entries.len()
            invariant
                i <= self.entries@.len(),
                out@ == head + entries_bytes(self.entries@.subrange(0, i as int)),
            decreases self.entries.len() - i,
        {
            let e = self.entries[i];
            push_le(&mut out, e.file_offset, 8);
            push_le(&mut out, e.exec_count, 8);
            proof {
                let es = self.entries@.subrange(0, i + 1);
                assert(es.drop_last() =~= self.entries@.subrange(0, i as int));
                assert(es.last() == e);
            }
            i += 1;
        }
        assert(self.entries@.subrange(0, self.entries@.len() as int) =~= self.entries@);
        out
    }

    /// Reads a profile from the bytes of a profile file. Bytes after the
    /// announced entries are ignored.
    pub fn from_bytes(b: &[u8]) -> (r: Result<ProfileData, ProfileError>)
        ensures
            match r {
                Ok(d) => parse_profile_spec(b@) == Ok::<(u32, Seq<ProfileEntry>), ProfileError>(
                    (d.threshold, d.entries@),
                ),
                Err(e) => parse_profile_spec(b@) == Err::<(u32, Seq<ProfileEntry>), ProfileError>(
                    e,
                ),
            },
    {
        if b.len() < 8 {
            return Err(ProfileError::Truncated);
        }
        if !(b[0] == 0x54 && b[1] == 0x43 && b[2] == 0x47 && b[3] == 0x50 && b[4] == 0x52 && b[5]
            == 0x4f && b[6] == 0x46 && b[7] == 0x00) {
            proof {
                if b@.subrange(0, 8) == profile_magic() {
                    assert(b@.subrange(0, 8)[0] == b@[0]);
                    assert(b@.subrange(0, 8)[1] == b@[1]);
                    assert(b@.subrange(0, 8)[2] == b@[2]);
                    assert(b@.subrange(0, 8)[3] == b@[3]);
                    assert(b@.subrange(0, 8)[4] == b@[4]);
                    assert(b@.subrange(0, 8)[5] == b@[5]);
                    assert(b@.subrange(0, 8)[6] == b@[6]);
                    assert(b@.subrange(0, 8)[7] == b@[7]);
                }
            }
            return Err(ProfileError::BadMagic);
        }
        assert(b@.subrange(0, 8) =~= profile_magic());
        if b.len() < 12 {
            return Err(ProfileError::Truncated);
        }
        let version = read_le(b, 8, 4);
        if version != PROFILE_VERSION as u64 {
            return Err(ProfileError::BadVersion);
        }
        if b.len() < 24 {
            return Err(ProfileError::Truncated);
        }
        let threshold = read_le(b, 12, 4);
        let count = read_le(b, 16, 8);
        proof {
            lemma_le_value_bound(b@.subrange(12, 16));
            lemma_pow_values();
        }
        let avail = (b.len() - 24) / 16;
        if count > avail as u64 {
            assert(b@.len() < 24 + 16 * count) by (nonlinear_arith)
                requires
                    avail == (b@.len() - 24) / 16,
                    count > avail,
                    b@.len() >= 24,
            ;
            return Err(ProfileError::Truncated);
        }
        assert(b@.len() >= 24 + 16 * count) by (nonlinear_arith)
            requires
                avail == (b@.len() - 24) / 16,
                count <= avail,
                b@.len() >= 24,
        ;
        let mut entries: Vec<ProfileEntry> = Vec::new();
        let mut i: usize = 0;
        while (i as u64) < count
            invariant
                count == field(b@, 16, 8),
                b@.len() >= 24 + 16 * count,
                i <= count,
                entries@ == Seq::new(i as nat, |j: int| entry_at(b@, j)),
            decreases count - i,
        {
            assert(24 + 16 * i + 16 <= b@.len()) by (nonlinear_arith)
                requires
                    i < count,
                    b@.len() >= 24 + 16 * count,
            ;
            assert(b@.len() == b.len());
            let off = 24 + 16 * i;
            let file_offset = read_le(b, off, 8);
            let exec_count = read_le(b, off + 8, 8);
            entries.push(ProfileEntry { file_offset, exec_count });
            assert(entries@ =~= Seq::new((i + 1) as nat, |j: int| entry_at(b@, j)));
            i += 1;
        }
        Ok(ProfileData { threshold: threshold as u32, entries })
    }

    /// The file offsets of all profiled TBs.
    pub fn hot_offsets(&self) -> (r: HashSet<u64>)
        ensures
            r@ == self.entries@.map_values(|e: ProfileEntry| e.file_offset).to_set(),
    {
        let mut set: HashSet<u64> = HashSet::new();
        let mut i: usize = 0;
        while i < self.entries.len()
            invariant
                i <= self.entries@.len(),
                set@ == self.entries@.subrange(0, i as int).map_values(
                    |e: ProfileEntry| e.file_offset,
                ).to_set(),
            decreases self.entries.len() - i,
        {
            let off = self.entries[i].file_offset;
            proof {
                let pre = self.entries@.subrange(0, i as int).map_values(
                    |e: ProfileEntry| e.file_offset,
                );
                assert(self.entries@.subrange(0, i + 1).map_values(|e: ProfileEntry| e.file_offset)
                    =~= pre.push(off));
                pre.lemma_push_to_set_commute(off);
            }
            set.insert(off);
            i += 1;
        }
        assert(self.entries@.subrange(0, self.entries@.len() as int) =~= self.entries@);
        set
    }

    /// Every profiled TB is exported.
    pub fn should_export(_e: &ProfileEntry) -> (r: bool)
        ensures
            r,
    {
        true
    }
}

/// Reading back the bytes written for a profile gives that profile.
pub proof fn law_profile_roundtrip(threshold: u32, es: Seq<ProfileEntry>)
    requires
        es.len() <= u64::MAX,
    ensures
        parse_profile_spec(profile_bytes(threshold, es)) == Ok::<
            (u32, Seq<ProfileEntry>),
            ProfileError,
        >((threshold, es)),
{
    let b = profile_bytes(threshold, es);
    lemma_pow_values();
    lemma_le_roundtrip(PROFILE_VERSION as nat, 4);
    lemma_le_roundtrip(threshold as nat, 4);
    lemma_le_roundtrip(es.len(), 8);
    let v = le_bytes(PROFILE_VERSION as nat, 4);
    let t = le_bytes(threshold as nat, 4);
    let c = le_bytes(es.len(), 8);
    lemma_entries_bytes(es);
    assert(b.subrange(0, 8) =~= profile_magic());
    assert(b.subrange(8, 12) =~= v);
    assert(b.subrange(12, 16) =~= t);
    assert(b.subrange(16, 24) =~= c);
    assert(b.len() == 24 + 16 * es.len());
    let parsed = Seq::new(field(b, 16, 8), |i: int| entry_at(b, i));
    assert forall|i: int| 0 <= i < es.len() implies #[trigger] parsed[i] == es[i] by {
        let eb = entries_bytes(es);
        assert(b.subrange(24 + 16 * i, 24 + 16 * i + 8) =~= eb.subrange(16 * i, 16 * i + 8));
        assert(b.subrange(32 + 16 * i, 32 + 16 * i + 8) =~= eb.subrange(16 * i + 8, 16 * i + 16));
    }
    assert(parsed =~= es);
}

/// The bytes of the `i`-th entry sit at `16 * i` in the entry bytes.
proof fn lemma_entries_bytes(es: Seq<ProfileEntry>)
    ensures
        entries_bytes(es).len() == 16 * es.len(),
        forall|i: int|
            0 <= i < es.len() ==> {
                &&& le_value(#[trigger] entries_bytes(es).subrange(16 * i, 16 * i + 8))
                    == es[i].file_offset
                &&& le_value(entries_bytes(es).subrange(16 * i + 8, 16 * i + 16))
                    == es[i].exec_count
            },
    decreases es.len(),
{
    lemma_pow_values();
    if es.len() > 0 {
        let pre = es.drop_last();
        lemma_entries_bytes(pre);
        let e = es.last();
        lemma_le_roundtrip(e.file_offset as nat, 8);
        lemma_le_roundtrip(e.exec_count as nat, 8);
        let eb = entries_bytes(es);
        let pb = entries_bytes(pre);
        let n = pre.len() as int;
        assert forall|i: int| 0 <= i < es.len() implies {
            &&& le_value(#[trigger] eb.subrange(16 * i, 16 * i + 8)) == es[i].file_offset
            &&& le_value(eb.subrange(16 * i + 8, 16 * i + 16)) == es[i].exec_count
        } by {
            if i < n {
                assert(eb.subrange(16 * i, 16 * i + 8) =~= pb.subrange(16 * i, 16 * i + 8));
                assert(eb.subrange(16 * i + 8, 16 * i + 16) =~= pb.subrange(
                    16 * i + 8,
                    16 * i + 16,
                ));
                assert(es[i] == pre[i]);
            } else {
                assert(eb.subrange(16 * i, 16 * i + 8) =~= le_bytes(e.file_offset as nat, 8));
                assert(eb.subrange(16 * i + 8, 16 * i + 16) =~= le_bytes(
                    e.exec_count as nat,
                    8,
                ));
            }
        }
    }
}

} // verus!

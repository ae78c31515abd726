//! The block device scheme that disk drivers serve: how byte reads are cut
//! into block reads, how partition-relative blocks map to the disk, and the
//! paths, listings and locks of the scheme's files.

use vstd::prelude::*;
use crate::decimal::{decimal, lemma_decimal_digits, lemma_parse_decimal, parse_u32, push_decimal, spec_parse_unsigned};
use crate::partition::PartitionTable;

verus! {

/// One block read of a byte read, and where its bytes go.
#[derive(Clone, Copy, Debug, PartialEq, Eq, Structural)]
pub struct BlockPiece {
    /// The block to read.
    pub block: u64,
    /// Where in the block the wanted bytes start.
    pub blk_offset: usize,
    /// How many bytes of the block are copied out.
    pub to_copy: usize,
}

/// The block reads that read `remaining` bytes from byte `pos` of a disk
/// with blocks of `bs` bytes: each reads the block that holds the next byte
/// and copies from there to the end of the block or of the request.
pub open spec fn block_pieces(pos: nat, remaining: nat, bs: nat) -> Seq<BlockPiece>
    decreases remaining,
{
    if remaining == 0 || bs == 0 {
        Seq::empty()
    } else {
        let off = pos % bs;
        let n: nat = if remaining < (bs - off) as nat {
            remaining
        } else {
            (bs - off) as nat
        };
        seq![BlockPiece { block: (pos / bs) as u64, blk_offset: off as usize, to_copy: n as usize }]
            + block_pieces(pos + n, (remaining - n) as nat, bs)
    }
}

/// The bytes that a read of `len` bytes at `offset` covers: the read stops
/// at the end of the 64-bit byte range.
pub open spec fn read_len(offset: u64, len: nat) -> nat {
    if offset + len > u64::MAX {
        (u64::MAX - offset) as nat
    } else {
        len
    }
}

/// Byte `i` of a read at `offset` is `x`: some call of `read_fn` for the
/// block that holds disk byte `offset + i` gave a full block with `x` there.
pub open spec fn byte_read<E, F: Fn(u64) -> Result<Vec<u8>, E>>(
    read_fn: F,
    bs: nat,
    offset: nat,
    i: int,
    x: u8,
) -> bool {
    exists|blk: Vec<u8>|
        #![trigger call_ensures(read_fn, (((offset + i) / (bs as int)) as u64,), Ok::<Vec<u8>, E>(blk))]
        call_ensures(read_fn, (((offset + i) / (bs as int)) as u64,), Ok::<Vec<u8>, E>(blk)) && blk@.len() == bs
            && x == blk@[(offset + i) % (bs as int)]
}

/// Some call of `read_fn` failed with `e`.
pub open spec fn read_failed<E, F: Fn(u64) -> Result<Vec<u8>, E>>(read_fn: F, e: E) -> bool {
    exists|b: u64| #[trigger] call_ensures(read_fn, (b,), Err::<Vec<u8>, E>(e))
}

/// Reads `buf.len()` bytes from byte `offset` of a disk whose blocks have
/// `blksize` bytes, block by block: `read_fn` gives the contents of a block
/// (a full block) or fails. It is called for the blocks the read covers, in
/// increasing order, once each. The read stops at the end of the 64-bit byte
/// range; its length is returned. The first failure is returned at once.
pub fn block_read<E, F: Fn(u64) -> Result<Vec<u8>, E>>(
    offset: u64,
    blksize: u32,
    buf: &mut [u8],
    read_fn: F,
) -> (r: Result<usize, E>)
    requires
        0 < blksize <= 4096,
        forall|b: u64| call_requires(read_fn, (b,)),
        forall|b: u64, v: Vec<u8>| call_ensures(read_fn, (b,), Ok::<Vec<u8>, E>(v)) ==> v@.len() == blksize,
    ensures
        final(buf)@.len() == old(buf)@.len(),
        r matches Ok(n) ==> n == read_len(offset, old(buf)@.len()),
        r matches Ok(n) ==> forall|i: int|
            0 <= i < n ==> byte_read(read_fn, blksize as nat, offset as nat, i, #[trigger] final(buf)@[i]),
        r matches Ok(n) ==> forall|i: int| n <= i < old(buf)@.len() ==> final(buf)@[i] == old(buf)@[i],
        r matches Err(e) ==> read_failed(read_fn, e),
{
    if buf.len() == 0 {
        return Ok(0);
    }
    let total: u64 = offset.saturating_add(buf.len() as u64) - offset;
    let n: usize = total as usize;
    let bs = blksize as u64;
    let mut done: usize = 0;

    while done < n
        invariant
            bs == blksize,
            0 < bs <= 4096,
            n == read_len(offset, old(buf)@.len()),
            n <= buf@.len(),
            done <= n,
            offset + n <= u64::MAX,
            buf@.len() == old(buf)@.len(),
            forall|b: u64| call_requires(read_fn, (b,)),
            forall|b: u64, v: Vec<u8>| call_ensures(read_fn, (b,), Ok::<Vec<u8>, E>(v)) ==> v@.len() == blksize,
            forall|i: int| 0 <= i < done ==> byte_read(read_fn, blksize as nat, offset as nat, i, #[trigger] buf@[i]),
            forall|i: int| done <= i < buf@.len() ==> buf@[i] == old(buf)@[i],
        decreases n - done,
    {
        let curr: u64 = offset + done as u64;
        let block = curr / bs;
        let blk_offset = curr % bs;
        let left = (n - done) as u64;
        let to_copy = if left < bs - blk_offset { left } else { bs - blk_offset };
        let blk = match read_fn(block) {
            Ok(v) => v,
            Err(e) => {
                assert(call_ensures(read_fn, (block,), Err::<Vec<u8>, E>(e)));
                assert(read_failed(read_fn, e));
                return Err(e);
            },
        };
        let mut j: u64 = 0;
        while j < to_copy
            invariant
                bs == blksize,
                0 < bs <= 4096,
                n == read_len(offset, old(buf)@.len()),
                n <= buf@.len(),
                done + to_copy <= n,
                offset + n <= u64::MAX,
                curr == offset + done,
                block == curr / bs,
                blk_offset == curr % bs,
                blk_offset + to_copy <= bs,
                j <= to_copy,
                buf@.len() == old(buf)@.len(),
                blk@.len() == blksize,
                call_ensures(read_fn, (block,), Ok::<Vec<u8>, E>(blk)),
                forall|i: int| 0 <= i < done + j ==> byte_read(read_fn, blksize as nat, offset as nat, i, #[trigger] buf@[i]),
                forall|i: int| done + j <= i < buf@.len() ==> buf@[i] == old(buf)@[i],
            decreases to_copy - j,
        {
            let k: usize = done + j as usize;
            let x = blk[(blk_offset + j) as usize];
            buf[k] = x;
            proof {
                assert((offset + k) / (bs as int) == block && (offset + k) % (bs as int) == blk_offset + j)
                    by (nonlinear_arith)
                    requires
                        curr == offset + done,
                        block == curr / bs,
                        blk_offset == curr % bs,
                        blk_offset + j < bs,
                        k == done + j,
                        bs > 0,
                ;
                let b2 = ((offset as int + k as int) / (blksize as nat as int)) as u64;
                assert(b2 == block);
                assert(call_ensures(read_fn, (b2,), Ok::<Vec<u8>, E>(blk)));
                assert(x == blk@[(offset as int + k as int) % (blksize as nat as int)]);
                assert(byte_read(read_fn, blksize as nat, offset as nat, k as int, x));
            }
            j = j + 1;
        }
        done = done + to_copy as usize;
    }
    Ok(n)
}

/// Cuts a read of `buf_len` bytes at byte `offset` into block reads.
pub fn block_read_plan(offset: u64, blksize: u32, buf_len: usize) -> (r: Vec<BlockPiece>)
    requires
        0 < blksize <= 4096,
    ensures
        r@ == block_pieces(offset as nat, read_len(offset, buf_len as nat), blksize as nat),
{
    let mut r: Vec<BlockPiece> = Vec::new();
    if buf_len == 0 {
        return r;
    }
    let total: u64 = offset.saturating_add(buf_len as u64) - offset;
    let ghost full = read_len(offset, buf_len as nat);
    assert(total == full);
    let mut remaining: u64 = total;
    let mut curr_offset: u64 = offset;
    let bs = blksize as u64;
    while remaining > 0
        invariant
            bs == blksize,
            0 < bs <= 4096,
            curr_offset + remaining <= u64::MAX,
            block_pieces(offset as nat, full, bs as nat) == r@ + block_pieces(
                curr_offset as nat,
                remaining as nat,
                bs as nat,
            ),
        decreases remaining,
    {
        let blk_offset = curr_offset % bs;
        let to_copy = if remaining < bs - blk_offset { remaining } else { bs - blk_offset };
        let piece = BlockPiece {
            block: curr_offset / bs,
            blk_offset: blk_offset as usize,
            to_copy: to_copy as usize,
        };
        proof {
            let rest = block_pieces((curr_offset + to_copy) as nat, (remaining - to_copy) as nat, bs as nat);
            assert(block_pieces(curr_offset as nat, remaining as nat, bs as nat) == seq![piece] + rest);
            assert(r@.push(piece) + rest =~= r@ + (seq![piece] + rest));
        }
        r.push(piece);
        curr_offset = curr_offset + to_copy;
        remaining = remaining - to_copy;
    }
    assert(r@ + Seq::<BlockPiece>::empty() =~= r@);
    r
}

/// The total number of bytes that the pieces copy.
pub open spec fn pieces_total(p: Seq<BlockPiece>) -> nat
    decreases p.len(),
{
    if p.len() == 0 {
        0
    } else {
        p[0].to_copy as nat + pieces_total(p.skip(1))
    }
}

/// The block reads of a byte read copy exactly the bytes asked for, each
/// from within one block, in order: each piece starts where the previous
/// one ended.
pub proof fn lemma_block_pieces_cover(pos: nat, remaining: nat, bs: nat)
    requires
        bs > 0,
        pos + remaining <= u64::MAX,
        bs <= usize::MAX,
    ensures
        pieces_total(block_pieces(pos, remaining, bs)) == remaining,
        forall|k: int|
            0 <= k < block_pieces(pos, remaining, bs).len() ==> {
                let p = #[trigger] block_pieces(pos, remaining, bs)[k];
                &&& p.blk_offset + p.to_copy <= bs
                &&& p.to_copy > 0
            },
        block_pieces(pos, remaining, bs).len() > 0 ==> block_pieces(pos, remaining, bs)[0].block * bs
            + block_pieces(pos, remaining, bs)[0].blk_offset == pos,
    decreases remaining,
{
    if remaining > 0 {
        let off = pos % bs;
        let n: nat = if remaining < (bs - off) as nat {
            remaining
        } else {
            (bs - off) as nat
        };
        lemma_block_pieces_cover(pos + n, (remaining - n) as nat, bs);
        let s = block_pieces(pos, remaining, bs);
        let rest = block_pieces(pos + n, (remaining - n) as nat, bs);
        assert(s.skip(1) =~= rest);
        assert((pos / bs) * bs + pos % bs == pos) by (nonlinear_arith)
            requires
                bs > 0,
        ;
        assert(pos / bs <= pos) by (nonlinear_arith)
            requires
                bs > 0,
        ;
        assert forall|k: int| 0 <= k < s.len() implies {
            let p = #[trigger] s[k];
            &&& p.blk_offset + p.to_copy <= bs
            &&& p.to_copy > 0
        } by {
            if k > 0 {
                assert(s[k] == rest[k - 1]);
            }
        }
    }
}

/// Why the disk scheme refuses a request.
#[derive(Clone, Copy, Debug, PartialEq, Eq, Structural)]
pub enum DiskError {
    /// Only the superuser may open disks.
    Access,
    /// The root can only be opened as a directory.
    IsDir,
    /// No such disk or partition.
    NoEntry,
    /// The disk or partition is already open in a conflicting way.
    NoLock,
    /// The handle does not fit the operation.
    BadFd,
    /// The block lies past the end of the partition.
    Overflow,
}

/// The block of the disk that block `block` of partition `part_num` (or of
/// the whole disk, for `None`) is.
pub fn partition_block(pt: &Option<PartitionTable>, part_num: Option<usize>, block: u64, block_size: u32) -> (r:
    Result<u64, DiskError>)
    requires
        block_size > 0,
        match (part_num, *pt) {
            (Some(n), Some(t)) => n < t.partitions@.len() ==> t.partitions@[n as int].start_lba
                + t.partitions@[n as int].size / (block_size as u64) <= u64::MAX,
            _ => true,
        },
    ensures
        match part_num {
            None => r == Ok::<u64, DiskError>(block),
            Some(n) => match pt {
                None => r == Err::<u64, DiskError>(DiskError::BadFd),
                Some(t) => if n >= t.partitions@.len() {
                    r == Err::<u64, DiskError>(DiskError::BadFd)
                } else if block >= t.partitions@[n as int].size / (block_size as u64) {
                    r == Err::<u64, DiskError>(DiskError::Overflow)
                } else {
                    r == Ok::<u64, DiskError>((t.partitions@[n as int].start_lba + block) as u64)
                },
            },
        },
{
    match part_num {
        None => Ok(block),
        Some(n) => {
            let t = match pt {
                Some(t) => t,
                None => {
                    return Err(DiskError::BadFd);
                },
            };
            if n >= t.partitions.len() {
                return Err(DiskError::BadFd);
            }
            let part = &t.partitions[n];
            let bs = block_size as u64;
            if block >= part.size / bs {
                return Err(DiskError::Overflow);
            }
            Ok(part.start_lba + block)
        },
    }
}

/// The file that a path of the scheme names.
#[derive(Clone, Copy, Debug, PartialEq, Eq, Structural)]
pub enum DiskPath {
    /// The listing of disks and partitions.
    Root,
    Disk(u32),
    /// A partition: disk number, partition number.
    Partition(u32, u32),
}

/// `s` without the slashes at its start.
pub open spec fn trim_start_slashes(s: Seq<u8>) -> Seq<u8>
    decreases s.len(),
{
    if s.len() > 0 && s[0] == 47u8 {
        trim_start_slashes(s.drop_first())
    } else {
        s
    }
}

/// `s` without the slashes at its end.
pub open spec fn trim_end_slashes(s: Seq<u8>) -> Seq<u8>
    decreases s.len(),
{
    if s.len() > 0 && s.last() == 47u8 {
        trim_end_slashes(s.drop_last())
    } else {
        s
    }
}

/// Position of the first `p` in `s`.
pub open spec fn first_p(s: Seq<u8>) -> Option<nat>
    decreases s.len(),
{
    if s.len() == 0 {
        None
    } else if s[0] == 112u8 {
        Some(0)
    } else {
        match first_p(s.drop_first()) {
            Some(i) => Some(i + 1),
            None => None,
        }
    }
}

/// The file a path names: the root for an empty path, `NpM` for partition M
/// of disk N, `N` for disk N, with slashes around the path ignored.
pub open spec fn spec_parse_disk_path(path: Seq<u8>) -> Result<DiskPath, DiskError> {
    let t = trim_end_slashes(trim_start_slashes(path));
    if t.len() == 0 {
        Ok(DiskPath::Root)
    } else {
        match first_p(t) {
            Some(i) => if i + 1 >= t.len() {
                Err(DiskError::NoEntry)
            } else {
                match (
                    spec_parse_unsigned(t.take(i as int), u32::MAX as nat),
                    spec_parse_unsigned(t.skip((i + 1) as int), u32::MAX as nat),
                ) {
                    (Some(a), Some(b)) => Ok(DiskPath::Partition(a as u32, b as u32)),
                    _ => Err(DiskError::NoEntry),
                }
            },
            None => match spec_parse_unsigned(t, u32::MAX as nat) {
                Some(a) => Ok(DiskPath::Disk(a as u32)),
                None => Err(DiskError::NoEntry),
            },
        }
    }
}

/// Parses a path of the disk scheme.
#[verifier::spinoff_prover]
pub fn parse_disk_path(path: &[u8]) -> (r: Result<DiskPath, DiskError>)
    ensures
        r == spec_parse_disk_path(path@),
{
    let mut start: usize = 0;
    assert(path@.skip(0) =~= path@);
    while start < path.len() && path[start] == 47u8
        invariant
            start <= path@.len(),
            trim_start_slashes(path@) == trim_start_slashes(path@.skip(start as int)),
        decreases path@.len() - start,
    {
        assert(path@.skip(start as int).drop_first() =~= path@.skip(start + 1));
        start = start + 1;
    }
    let ghost ts = path@.skip(start as int);
    assert(trim_start_slashes(ts) == ts);
    let mut end: usize = path.len();
    assert(ts.take(ts.len() as int) =~= ts);
    while end > start && path[end - 1] == 47u8
        invariant
            start <= end <= path@.len(),
            ts == path@.skip(start as int),
            trim_end_slashes(ts) == trim_end_slashes(path@.subrange(start as int, end as int)),
        decreases end,
    {
        assert(path@.subrange(start as int, end as int).drop_last() =~= path@.subrange(
            start as int,
            end - 1,
        ));
        end = end - 1;
    }
    let t = &path[start..end];
    assert(trim_end_slashes(t@) == t@);
    assert(t@ == trim_end_slashes(trim_start_slashes(path@)));
    if t.len() == 0 {
        return Ok(DiskPath::Root);
    }
    let mut i: usize = 0;
    assert(t@.skip(0) =~= t@);
    while i < t.len() && t[i] != 112u8
        invariant
            i <= t@.len(),
            first_p(t@) == (match first_p(t@.skip(i as int)) {
                Some(j) => Some((j + i) as nat),
                None => None,
            }),
        decreases t@.len() - i,
    {
        assert(t@.skip(i as int).drop_first() =~= t@.skip(i + 1));
        i = i + 1;
    }
    if i < t.len() {
        assert(first_p(t@.skip(i as int)) == Some(0nat));
        if i + 1 >= t.len() {
            return Err(DiskError::NoEntry);
        }
        let nsid_str = &t[0..i];
        let part_str = &t[i + 1..t.len()];
        assert(nsid_str@ =~= t@.take(i as int));
        assert(part_str@ =~= t@.skip(i + 1));
        let nsid = parse_u32(nsid_str);
        let part = parse_u32(part_str);
        match (nsid, part) {
            (Some(a), Some(b)) => Ok(DiskPath::Partition(a, b)),
            _ => Err(DiskError::NoEntry),
        }
    } else {
        assert(t@.skip(i as int).len() == 0);
        match parse_u32(t) {
            Some(a) => Ok(DiskPath::Disk(a)),
            None => Err(DiskError::NoEntry),
        }
    }
}

/// An open file of the disk scheme.
#[derive(Clone, Debug)]
pub enum Handle {
    /// The listing, with its text.
    List(Vec<u8>),
    /// A whole disk.
    Disk(u32),
    /// A partition: disk number, partition number.
    Partition(u32, u32),
}

/// Whether an open handle `h` stands in the way of opening disk `disk_i`
/// (partition `part_i`, or the whole disk for `None`): a handle on the whole
/// disk always does, a handle on one of its partitions does for the whole
/// disk and for that partition.
pub open spec fn conflicts(h: Handle, disk_i: u32, part_i: Option<u32>) -> bool {
    match h {
        Handle::Disk(i) => i == disk_i,
        Handle::Partition(i, p) => i == disk_i && (part_i is None || part_i == Some(p)),
        Handle::List(_) => false,
    }
}

/// Refuses to open disk `disk_i` (partition `part_i_opt`) while a
/// conflicting handle is open.
pub fn check_locks(handles: &[Handle], disk_i: u32, part_i_opt: Option<u32>) -> (r: Result<(), DiskError>)
    ensures
        (exists|k: int| 0 <= k < handles@.len() && conflicts(#[trigger] handles@[k], disk_i, part_i_opt))
            <==> r is Err,
        r matches Err(e) ==> e == DiskError::NoLock,
{
    let mut k: usize = 0;
    while k < handles.len()
        invariant
            k <= handles@.len(),
            forall|j: int| 0 <= j < k ==> !conflicts(#[trigger] handles@[j], disk_i, part_i_opt),
        decreases handles@.len() - k,
    {
        match &handles[k] {
            Handle::Disk(i) => {
                if disk_i == *i {
                    return Err(DiskError::NoLock);
                }
            },
            Handle::Partition(i, p) => {
                if disk_i == *i {
                    match part_i_opt {
                        Some(part_i) => {
                            if part_i == *p {
                                return Err(DiskError::NoLock);
                            }
                        },
                        None => {
                            return Err(DiskError::NoLock);
                        },
                    }
                }
            },
            Handle::List(_) => {},
        }
        k = k + 1;
    }
    Ok(())
}

/// What the scheme knows of a disk when it opens files: its number and the
/// number of partitions of its table, if it has one.
#[derive(Clone, Copy, Debug, PartialEq, Eq, Structural)]
pub struct DiskInfo {
    pub id: u32,
    pub partitions: Option<usize>,
}

/// The partition numbers of a disk can be written as `u32`.
pub open spec fn partitions_fit(d: DiskInfo) -> bool {
    match d.partitions {
        Some(n) => n <= u32::MAX,
        None => true,
    }
}

/// The listing line of a disk and of each of its partitions.
pub open spec fn disk_lines(id: u32, parts: nat) -> Seq<u8>
    decreases parts,
{
    if parts == 0 {
        decimal(id as nat) + seq![10u8]
    } else {
        disk_lines(id, (parts - 1) as nat) + decimal(id as nat) + seq![112u8] + decimal(
            (parts - 1) as nat,
        ) + seq![10u8]
    }
}

/// The text of the scheme's root: one line per disk, followed by one line
/// per partition of its table.
pub open spec fn disk_list_text(disks: Seq<DiskInfo>) -> Seq<u8>
    decreases disks.len(),
{
    if disks.len() == 0 {
        Seq::empty()
    } else {
        let d = disks.last();
        disk_list_text(disks.drop_last()) + match d.partitions {
            Some(n) => disk_lines(d.id, n as nat),
            None => disk_lines(d.id, 0),
        }
    }
}

/// Writes the listing of the scheme's root.
pub fn disk_list(disks: &[DiskInfo]) -> (r: Vec<u8>)
    requires
        forall|k: int| 0 <= k < disks@.len() ==> partitions_fit(#[trigger] disks@[k]),
    ensures
        r@ == disk_list_text(disks@),
{
    let mut out: Vec<u8> = Vec::new();
    let mut k: usize = 0;
    while k < disks.len()
        invariant
            k <= disks@.len(),
            forall|j: int| 0 <= j < disks@.len() ==> partitions_fit(#[trigger] disks@[j]),
            out@ == disk_list_text(disks@.take(k as int)),
        decreases disks@.len() - k,
    {
        let d = disks[k];
        push_decimal(&mut out, d.id);
        out.push(10u8);
        assert(out@ =~= disk_list_text(disks@.take(k as int)) + disk_lines(d.id, 0));
        match d.partitions {
            Some(n) => {
                let mut p: usize = 0;
                while p < n
                    invariant
                        p <= n <= u32::MAX,
                        out@ == disk_list_text(disks@.take(k as int)) + disk_lines(d.id, p as nat),
                    decreases n - p,
                {
                    let ghost before = out@;
                    push_decimal(&mut out, d.id);
                    out.push(112u8);
                    push_decimal(&mut out, p as u32);
                    out.push(10u8);
                    assert(out@ =~= before + decimal(d.id as nat) + seq![112u8] + decimal(p as nat) + seq![10u8]);
                    p = p + 1;
                }
            },
            None => {},
        }
        proof {
            assert(disks@.take(k + 1).drop_last() =~= disks@.take(k as int));
            assert(disks@.take(k + 1).last() == d);
        }
        k = k + 1;
    }
    assert(disks@.take(disks@.len() as int) =~= disks@);
    out
}

/// The path of a disk's listing line.
pub open spec fn disk_path_text(id: u32) -> Seq<u8> {
    decimal(id as nat)
}

/// The path of a partition's listing line.
pub open spec fn partition_path_text(id: u32, part: nat) -> Seq<u8> {
    decimal(id as nat) + seq![112u8] + decimal(part)
}

proof fn lemma_decimal_no_slash_no_p(n: nat)
    ensures
        forall|i: int| 0 <= i < decimal(n).len() ==> #[trigger] decimal(n)[i] != 47u8 && decimal(n)[i] != 112u8,
        decimal(n).len() >= 1,
{
    lemma_decimal_digits(n);
    assert forall|i: int| 0 <= i < decimal(n).len() implies #[trigger] decimal(n)[i] != 47u8 && decimal(n)[i]
        != 112u8 by {
        assert(crate::decimal::is_digit(decimal(n)[i]));
    }
}

proof fn lemma_first_p_none(s: Seq<u8>)
    requires
        forall|i: int| 0 <= i < s.len() ==> s[i] != 112u8,
    ensures
        first_p(s) is None,
    decreases s.len(),
{
    if s.len() > 0 {
        lemma_first_p_none(s.drop_first());
    }
}

proof fn lemma_first_p_after(a: Seq<u8>, b: Seq<u8>)
    requires
        forall|i: int| 0 <= i < a.len() ==> a[i] != 112u8,
    ensures
        first_p(a + seq![112u8] + b) == Some(a.len()),
    decreases a.len(),
{
    if a.len() > 0 {
        assert((a + seq![112u8] + b).drop_first() =~= a.drop_first() + seq![112u8] + b);
        lemma_first_p_after(a.drop_first(), b);
    } else {
        assert((a + seq![112u8] + b)[0] == 112u8);
    }
}

proof fn lemma_trim_nothing(s: Seq<u8>)
    requires
        s.len() >= 1,
        s[0] != 47u8,
        s.last() != 47u8,
    ensures
        trim_end_slashes(trim_start_slashes(s)) == s,
{
}

/// Every line of the root listing names the disk or the partition it was
/// written for: the disk's line parses as that disk, and the line of each of
/// its partitions as that partition.
pub proof fn lemma_listing_lines_parse(id: u32, part: u32)
    ensures
        spec_parse_disk_path(disk_path_text(id)) == Ok::<DiskPath, DiskError>(DiskPath::Disk(id)),
        spec_parse_disk_path(partition_path_text(id, part as nat)) == Ok::<DiskPath, DiskError>(
            DiskPath::Partition(id, part),
        ),
{
    lemma_decimal_no_slash_no_p(id as nat);
    lemma_decimal_no_slash_no_p(part as nat);
    let d = decimal(id as nat);
    let q = decimal(part as nat);
    lemma_parse_decimal(id as nat, u32::MAX as nat);
    lemma_parse_decimal(part as nat, u32::MAX as nat);
    assert(d[0] != 47u8);
    assert(d.last() == d[d.len() - 1]);
    lemma_trim_nothing(d);
    lemma_first_p_none(d);
    let t = d + seq![112u8] + q;
    assert(t[0] == d[0]);
    assert(t.last() == q[q.len() - 1]);
    lemma_trim_nothing(t);
    lemma_first_p_after(d, q);
    assert(t.take(d.len() as int) =~= d);
    assert(t.skip((d.len() + 1) as int) =~= q);
}

/// Copies the bytes of `list` from `offset` on into `buf`, as far as both go.
pub fn list_read(list: &[u8], buf: &mut [u8], offset: u64) -> (r: usize)
    ensures
        ({
            let src = if offset <= list@.len() { list@.skip(offset as int) } else { Seq::<u8>::empty() };
            &&& r == (if src.len() < old(buf)@.len() { src.len() } else { old(buf)@.len() })
            &&& final(buf)@ == src.take(r as int) + old(buf)@.skip(r as int)
        }),
{
    let start: usize = if offset <= list.len() as u64 { offset as usize } else { list.len() };
    let src = &list[start..list.len()];
    let count = if src.len() < buf.len() { src.len() } else { buf.len() };
    let mut i: usize = 0;
    while i < count
        invariant
            count <= src@.len(),
            count <= buf@.len(),
            buf@.len() == old(buf)@.len(),
            i <= count,
            forall|j: int| 0 <= j < i ==> buf@[j] == src@[j],
            forall|j: int| i <= j < buf@.len() ==> buf@[j] == old(buf)@[j],
        decreases count - i,
    {
        buf[i] = src[i];
        i = i + 1;
    }
    assert(buf@ =~= src@.take(count as int) + old(buf)@.skip(count as int));
    count
}

/// The text of a handle's path after the scheme name and the colon.
pub open spec fn handle_path_text(h: Handle) -> Seq<u8> {
    match h {
        Handle::List(_) => Seq::empty(),
        Handle::Disk(n) => decimal(n as nat),
        Handle::Partition(d, p) => decimal(d as nat) + seq![112u8] + decimal(p as nat),
    }
}

/// Writes the path of a handle, `scheme:N` or `scheme:NpM` (`scheme:` for the
/// root), as far as it fits in `buf`; gives the number of bytes written.
pub fn fpath(scheme_name: &[u8], handle: &Handle, buf: &mut [u8]) -> (r: usize)
    ensures
        ({
            let text = scheme_name@ + seq![58u8] + handle_path_text(*handle);
            &&& r == (if text.len() < old(buf)@.len() { text.len() } else { old(buf)@.len() })
            &&& final(buf)@ == text.take(r as int) + old(buf)@.skip(r as int)
        }),
{
    let mut text: Vec<u8> = Vec::new();
    let mut j: usize = 0;
    while j < scheme_name.len()
        invariant
            j <= scheme_name@.len(),
            text@ == scheme_name@.take(j as int),
        decreases scheme_name@.len() - j,
    {
        text.push(scheme_name[j]);
        j = j + 1;
        assert(text@ =~= scheme_name@.take(j as int));
    }
    assert(scheme_name@.take(scheme_name@.len() as int) =~= scheme_name@);
    text.push(58u8);
    match handle {
        Handle::List(_) => {},
        Handle::Disk(n) => {
            push_decimal(&mut text, *n);
        },
        Handle::Partition(d, p) => {
            push_decimal(&mut text, *d);
            text.push(112u8);
            push_decimal(&mut text, *p);
        },
    }
    assert(text@ =~= scheme_name@ + seq![58u8] + handle_path_text(*handle));
    list_read(text.as_slice(), buf, 0)
}

/// The disk of `disks` with number `id`, if there is one.
pub open spec fn find_disk(disks: Seq<DiskInfo>, id: u32) -> Option<DiskInfo>
    decreases disks.len(),
{
    if disks.len() == 0 {
        None
    } else if disks[0].id == id {
        Some(disks[0])
    } else {
        find_disk(disks.drop_first(), id)
    }
}

fn lookup_disk(disks: &[DiskInfo], id: u32) -> (r: Option<DiskInfo>)
    ensures
        r == find_disk(disks@, id),
{
    let mut k: usize = 0;
    assert(disks@.skip(0) =~= disks@);
    while k < disks.len()
        invariant
            k <= disks@.len(),
            find_disk(disks@, id) == find_disk(disks@.skip(k as int), id),
        decreases disks@.len() - k,
    {
        assert(disks@.skip(k as int)[0] == disks@[k as int]);
        if disks[k].id == id {
            return Some(disks[k]);
        }
        assert(disks@.skip(k as int).drop_first() =~= disks@.skip(k + 1));
        k = k + 1;
    }
    None
}

/// Opens a path of the scheme for a caller of user id `uid`, who asks for a
/// directory or its status where `dir_or_stat`; `disks` are the disks the
/// scheme serves and `handles` the handles open on it.
pub fn open_path(path: &[u8], dir_or_stat: bool, uid: u32, disks: &[DiskInfo], handles: &[Handle]) -> (r: Result<
    Handle,
    DiskError,
>)
    requires
        forall|k: int| 0 <= k < disks@.len() ==> partitions_fit(#[trigger] disks@[k]),
    ensures
        uid != 0 ==> r matches Err(DiskError::Access),
        uid == 0 ==> match spec_parse_disk_path(path@) {
            Err(e) => r matches Err(e2) && e2 == e,
            Ok(DiskPath::Root) => if dir_or_stat {
                r matches Ok(Handle::List(text)) && text@ == disk_list_text(disks@)
            } else {
                r matches Err(DiskError::IsDir)
            },
            Ok(DiskPath::Partition(n, p)) => match find_disk(disks@, n) {
                Some(d) => if d.partitions matches Some(c) && p < c {
                    if exists|k: int| 0 <= k < handles@.len() && conflicts(#[trigger] handles@[k], n, Some(p)) {
                        r matches Err(DiskError::NoLock)
                    } else {
                        r matches Ok(Handle::Partition(a, b)) && a == n && b == p
                    }
                } else {
                    r matches Err(DiskError::NoEntry)
                },
                None => r matches Err(DiskError::NoEntry),
            },
            Ok(DiskPath::Disk(n)) => match find_disk(disks@, n) {
                Some(_) => if exists|k: int| 0 <= k < handles@.len() && conflicts(#[trigger] handles@[k], n, None) {
                    r matches Err(DiskError::NoLock)
                } else {
                    r matches Ok(Handle::Disk(a)) && a == n
                },
                None => r matches Err(DiskError::NoEntry),
            },
        },
{
    if uid != 0 {
        return Err(DiskError::Access);
    }
    match parse_disk_path(path) {
        Err(e) => Err(e),
        Ok(DiskPath::Root) => {
            if dir_or_stat {
                Ok(Handle::List(disk_list(disks)))
            } else {
                Err(DiskError::IsDir)
            }
        },
        Ok(DiskPath::Partition(n, p)) => {
            match lookup_disk(disks, n) {
                Some(d) => {
                    match d.partitions {
                        Some(c) => {
                            if (p as usize) < c {
                                match check_locks(handles, n, Some(p)) {
                                    Ok(()) => Ok(Handle::Partition(n, p)),
                                    Err(e) => Err(e),
                                }
                            } else {
                                Err(DiskError::NoEntry)
                            }
                        },
                        None => Err(DiskError::NoEntry),
                    }
                },
                None => Err(DiskError::NoEntry),
            }
        },
        Ok(DiskPath::Disk(n)) => {
            match lookup_disk(disks, n) {
                Some(_) => {
                    match check_locks(handles, n, None) {
                        Ok(()) => Ok(Handle::Disk(n)),
                        Err(e) => Err(e),
                    }
                },
                None => Err(DiskError::NoEntry),
            }
        },
    }
}

/// Where a seek of the disk reader that looks for partition tables starts.
#[derive(Clone, Copy, Debug, PartialEq, Eq, Structural)]
pub enum SeekFrom {
    Start(u64),
    Current(i64),
    End(i64),
}

/// The position a seek moves the reader to, kept within the disk; `None`
/// where the disk is larger than 2^63 - 1 bytes.
pub fn seek_position(disk_size: u64, offset: u64, from: SeekFrom) -> (r: Option<u64>)
    requires
        match from {
            SeekFrom::Current(n) => offset <= i64::MAX && i64::MIN <= offset + n <= i64::MAX,
            SeekFrom::End(n) => disk_size <= i64::MAX ==> i64::MIN <= disk_size + n <= i64::MAX,
            SeekFrom::Start(_) => true,
        },
    ensures
        disk_size > i64::MAX ==> r is None,
        disk_size <= i64::MAX ==> r == Some(
            match from {
                SeekFrom::Start(p) => if p < disk_size { p } else { disk_size },
                SeekFrom::Current(n) => if offset + n < 0 {
                    0
                } else if offset + n > disk_size {
                    disk_size
                } else {
                    (offset + n) as u64
                },
                SeekFrom::End(n) => if disk_size + n < 0 {
                    0
                } else if n > 0 {
                    disk_size
                } else {
                    (disk_size + n) as u64
                },
            },
        ),
{
    if disk_size > i64::MAX as u64 {
        return None;
    }
    let size = disk_size as i64;
    let pos = match from {
        SeekFrom::Start(p) => if p < disk_size { p } else { disk_size },
        SeekFrom::Current(n) => {
            let t = offset as i64 + n;
            let t = if t < size { t } else { size };
            (if t > 0 { t } else { 0 }) as u64
        },
        SeekFrom::End(n) => {
            let t = size + n;
            let t = if t < size { t } else { size };
            (if t > 0 { t } else { 0 }) as u64
        },
    };
    Some(pos)
}

/// Directory mode of a status record.
pub const MODE_DIR: u16 = 0o040000;
/// Regular file mode of a status record.
pub const MODE_FILE: u16 = 0o100000;

/// What the scheme reports of a file: its mode and size, and for disks and
/// partitions the number of blocks and the block size (`None` where the
/// record keeps what it held).
#[derive(Clone, Copy, Debug, PartialEq, Eq, Structural)]
pub struct FileStat {
    pub mode: u16,
    pub size: u64,
    pub blocks: Option<u64>,
    pub blksize: Option<u32>,
}

/// The status of the listing, of `len` bytes.
pub fn list_stat(len: usize) -> (r: FileStat)
    ensures
        r == (FileStat { mode: MODE_DIR, size: len as u64, blocks: None, blksize: None }),
{
    FileStat { mode: MODE_DIR, size: len as u64, blocks: None, blksize: None }
}

/// The status of a whole disk of `size` bytes in blocks of `block_size`.
pub fn disk_stat(size: u64, block_size: u32) -> (r: FileStat)
    requires
        block_size > 0,
    ensures
        r == (FileStat {
            mode: MODE_FILE,
            size,
            blocks: Some((size / (block_size as u64)) as u64),
            blksize: Some(block_size),
        }),
{
    FileStat { mode: MODE_FILE, size, blocks: Some(size / (block_size as u64)), blksize: Some(block_size) }
}

/// The status of a partition of `part_size` blocks of `block_size` bytes.
pub fn partition_stat(part_size: u64, block_size: u32) -> (r: FileStat)
    requires
        part_size * block_size <= u64::MAX,
    ensures
        r == (FileStat {
            mode: MODE_FILE,
            size: (part_size * block_size) as u64,
            blocks: Some(part_size),
            blksize: Some(block_size),
        }),
{
    FileStat { mode: MODE_FILE, size: part_size * (block_size as u64), blocks: Some(part_size), blksize: Some(block_size) }
}

} // verus!

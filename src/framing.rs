//! The outer layout of an LZ4 frame: a header, then blocks, each behind a
//! 4-byte size field, closed by a zero end mark. The check here tells a
//! complete frame from one that was cut short, which the decompressor alone
//! does not: it takes input that stops between two blocks as a clean end.

use vstd::prelude::*;
use crate::bytes::{le_u32, read_u32};

verus! {

/// Bytes in the frame header, given its flag byte: magic number, flags, block
/// descriptor and header checksum, then the optional content size and
/// dictionary id.
pub open spec fn header_len(flags: u8) -> int {
    7 + (if flags & 0x08u8 != 0 { 8int } else { 0int }) + (if flags & 0x01u8 != 0 {
        4int
    } else {
        0int
    })
}

/// Bytes of checksum after each block's data.
pub open spec fn block_checksum_len(flags: u8) -> int {
    if flags & 0x10u8 != 0 {
        4
    } else {
        0
    }
}

/// Bytes of checksum after the end mark.
pub open spec fn content_checksum_len(flags: u8) -> int {
    if flags & 0x04u8 != 0 {
        4
    } else {
        0
    }
}

/// The blocks of `f` from byte `pos` on run up to an end mark that, with its
/// checksum, ends exactly at the end of `f`.
pub open spec fn blocks_closed(f: Seq<u8>, pos: int, flags: u8) -> bool
    decreases f.len() - pos,
{
    if pos < 0 || pos + 4 > f.len() {
        false
    } else {
        let size = le_u32(f.subrange(pos, pos + 4));
        if size == 0 {
            pos + 4 + content_checksum_len(flags) == f.len()
        } else {
            let next = pos + 4 + (size & 0x7fff_ffffu32) + block_checksum_len(flags);
            next <= f.len() && blocks_closed(f, next, flags)
        }
    }
}

/// `f` is one whole LZ4 frame: its magic number, its header, then blocks up to
/// an end mark at its very end.
pub open spec fn frame_closed(f: Seq<u8>) -> bool {
    &&& f.len() >= 7
    &&& f[0] == 0x04u8
    &&& f[1] == 0x22u8
    &&& f[2] == 0x4du8
    &&& f[3] == 0x18u8
    &&& blocks_closed(f, header_len(f[4]), f[4])
}

proof fn lemma_blocks_cut(f: Seq<u8>, pos: int, flags: u8, n: int)
    requires
        blocks_closed(f, pos, flags),
        0 <= n < f.len(),
    ensures
        !blocks_closed(f.subrange(0, n), pos, flags),
    decreases f.len() - pos,
{
    let c = f.subrange(0, n);
    if pos + 4 <= n {
        assert(c.subrange(pos, pos + 4) =~= f.subrange(pos, pos + 4));
        let size = le_u32(f.subrange(pos, pos + 4));
        if size != 0 {
            let next = pos + 4 + (size & 0x7fff_ffffu32) + block_checksum_len(flags);
            if next <= n {
                lemma_blocks_cut(f, next, flags, n);
            }
        }
    }
}

/// No frame that is closed stays closed when cut short.
pub proof fn lemma_cut_frame_not_closed(f: Seq<u8>, n: int)
    requires
        frame_closed(f),
        0 <= n < f.len(),
    ensures
        !frame_closed(f.subrange(0, n)),
{
    if n >= 7 {
        let c = f.subrange(0, n);
        assert(c[4] == f[4]);
        lemma_blocks_cut(f, header_len(f[4]), f[4], n);
    }
}

/// Whether `f` is one whole LZ4 frame.
pub fn is_closed_frame(f: &[u8]) -> (r: bool)
    ensures
        r == frame_closed(f@),
{
    let len = f.len();
    if len < 7 || f[0] != 0x04u8 || f[1] != 0x22u8 || f[2] != 0x4du8 || f[3] != 0x18u8 {
        return false;
    }
    let flags = f[4];
    let mut pos: usize = 7;
    if flags & 0x08u8 != 0 {
        pos = pos + 8;
    }
    if flags & 0x01u8 != 0 {
        pos = pos + 4;
    }
    let block_sum: usize = if flags & 0x10u8 != 0 {
        4
    } else {
        0
    };
    let content_sum: usize = if flags & 0x04u8 != 0 {
        4
    } else {
        0
    };
    loop
        invariant
            len == f@.len(),
            len >= 7,
            flags == f@[4],
            block_sum == block_checksum_len(flags),
            content_sum == content_checksum_len(flags),
            pos >= 4,
            frame_closed(f@) == blocks_closed(f@, pos as int, flags),
        decreases len - pos,
    {
        if pos > len || len - pos < 4 {
            return false;
        }
        let size = read_u32(f, pos);
        if size == 0 {
            return len - pos - 4 == content_sum;
        }
        let data = size & 0x7fff_ffffu32;
        assert(data <= 0x7fff_ffffu32) by (bit_vector)
            requires
                data == size & 0x7fff_ffffu32,
        ;
        let need = data as usize + block_sum;
        if need > len - pos - 4 {
            return false;
        }
        pos = pos + 4 + need;
    }
}

} // verus!

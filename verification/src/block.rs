use vstd::prelude::*;

use crate::bytes::vec_subrange;
use crate::errors::FsError;

verus! {

/// Native block size of the device, in bytes.
pub const DEV_BLOCK_SIZE: u64 = 4096;

/// Byte-addressed facade over a block volume whose native unit is a
/// 4096-byte block. The whole volume content is the view.
pub struct BlockReader {
    data: Vec<u8>,
}

impl View for BlockReader {
    type V = Seq<u8>;

    closed spec fn view(&self) -> Seq<u8> {
        self.data@
    }
}

/// The volume after writing `b` at byte offset `off`: bytes outside
/// `[off, off + b.len())` keep their previous value.
pub open spec fn splice(dev: Seq<u8>, off: int, b: Seq<u8>) -> Seq<u8> {
    dev.take(off) + b + dev.skip(off + b.len())
}

/// Start of the enclosing 4096-aligned range of offset `off`.
pub open spec fn aligned_start(off: int) -> int {
    (off / 4096) * 4096
}

/// End of the enclosing 4096-aligned range of `[off, off + len)`.
pub open spec fn aligned_end(off: int, len: int) -> int {
    ((off + len + 4095) / 4096) * 4096
}

impl BlockReader {
    /// A volume is well formed when it holds whole device blocks. Its
    /// length fits the machine, being the length of a held vector.
    pub open spec fn wf(&self) -> bool {
        &&& self@.len() % 4096 == 0
        &&& self@.len() <= usize::MAX
        &&& self@.len() <= 0xFFFF_FFFF_FFFF_FFFF
    }

    /// Wrap a volume image. The image must consist of whole 4096-byte blocks.
    pub fn new(data: Vec<u8>) -> (r: Result<BlockReader, FsError>)
        ensures
            match r {
                Ok(br) => br@ == data@ && br.wf(),
                Err(e) => e == FsError::InvalidArgs && data@.len() % 4096 != 0,
            },
    {
        proof {
            vstd::std_specs::vec::axiom_spec_len(&data);
        }
        if data.len() % 4096 == 0 {
            Ok(BlockReader { data })
        } else {
            Err(FsError::InvalidArgs)
        }
    }

    /// Volume size in bytes.
    pub fn size(&self) -> (r: usize)
        ensures
            r == self@.len(),
    {
        self.data.len()
    }

    /// Read `len` bytes starting at absolute device offset `offset`.
    ///
    /// The facade always transfers whole device blocks: it fetches the
    /// enclosing aligned range and hands back the interior window, which is
    /// exactly the bytes `[offset, offset + len)` of the volume.
    pub fn read_offset(&self, offset: u64, len: usize) -> (r: Result<Vec<u8>, FsError>)
        requires
            self.wf(),
        ensures
            match r {
                Ok(v) => {
                    &&& v@.len() == len
                    &&& len > 0 ==> offset + len <= self@.len() && v@ == self@.subrange(
                        offset as int,
                        offset + len,
                    )
                },
                Err(e) => e == FsError::IoError && len > 0 && offset + len > self@.len(),
            },
            r is Ok <==> (len == 0 || offset + len <= self@.len()),
    {
        proof {
            vstd::std_specs::vec::axiom_spec_len(&self.data);
        }
        if len == 0 {
            let v: Vec<u8> = Vec::new();
            return Ok(v);
        }
        if offset > u64::MAX - len as u64 {
            return Err(FsError::IoError);
        }
        let end_pos = offset + len as u64;
        if end_pos > self.data.len() as u64 {
            return Err(FsError::IoError);
        }

        let start_block = offset / DEV_BLOCK_SIZE;
        let end_block = (end_pos + (DEV_BLOCK_SIZE - 1)) / DEV_BLOCK_SIZE;
        let astart = start_block * DEV_BLOCK_SIZE;
        let aend = end_block * DEV_BLOCK_SIZE;
        proof {
            lemma_aligned_range(self@.len() as int, offset as int, len as int);
        }
        let temp = vec_subrange(&self.data, astart as usize, aend as usize);
        let copy_start = (offset % DEV_BLOCK_SIZE) as usize;
        let out = vec_subrange(&temp, copy_start, copy_start + len);
        proof {
            vstd::arithmetic::div_mod::lemma_fundamental_div_mod(offset as int, 4096);
            assert(out@ =~= self@.subrange(offset as int, offset + len));
        }
        Ok(out)
    }

    /// Write `buf` starting at the 512-byte LBA `sector`, i.e. at absolute
    /// byte offset `sector * 512`. Partial device blocks are read, modified
    /// and written back, so bytes outside the written range keep their value.
    pub fn write_blocks(&mut self, sector: u64, buf: &Vec<u8>) -> (r: Result<(), FsError>)
        requires
            old(self).wf(),
        ensures
            final(self).wf(),
            match r {
                Ok(()) => {
                    &&& sector * 512 + buf@.len() <= old(self)@.len()
                    &&& final(self)@ == splice(old(self)@, sector * 512, buf@)
                },
                Err(e) => {
                    &&& e == FsError::IoError
                    &&& sector * 512 + buf@.len() > old(self)@.len()
                    &&& final(self)@ == old(self)@
                },
            },
    {
        proof {
            vstd::std_specs::vec::axiom_spec_len(&self.data);
            vstd::std_specs::vec::axiom_spec_len(buf);
        }
        if sector > u64::MAX / 512 {
            return Err(FsError::IoError);
        }
        let offset = sector * 512;
        if buf.len() as u64 > u64::MAX - offset {
            return Err(FsError::IoError);
        }
        if offset + buf.len() as u64 > self.data.len() as u64 {
            return Err(FsError::IoError);
        }
        let off = offset as usize;
        let mut i: usize = 0;
        while i < buf.len()
            invariant
                i <= buf@.len(),
                off + buf@.len() <= self.data@.len() <= usize::MAX,
                self.data@.len() == old(self)@.len(),
                self.data@ == splice(old(self)@, off as int, buf@.take(i as int)),
            decreases buf@.len() - i,
        {
            self.data[off + i] = buf[i];
            assert(self.data@ =~= splice(old(self)@, off as int, buf@.take(i + 1)));
            i = i + 1;
        }
        assert(buf@.take(buf@.len() as int) =~= buf@);
        Ok(())
    }
}

/// The enclosing aligned range of an in-bounds request is itself in bounds.
proof fn lemma_aligned_range(devlen: int, off: int, len: int)
    requires
        devlen % 4096 == 0,
        0 <= off,
        0 < len,
        off + len <= devlen,
    ensures
        0 <= aligned_start(off) <= off,
        off + len <= aligned_end(off, len),
        aligned_end(off, len) <= devlen,
        aligned_start(off) + (off % 4096) == off,
{
    vstd::arithmetic::div_mod::lemma_fundamental_div_mod(off, 4096);
    vstd::arithmetic::div_mod::lemma_fundamental_div_mod(off + len + 4095, 4096);
    vstd::arithmetic::div_mod::lemma_fundamental_div_mod(devlen, 4096);
    let e = off + len;
    assert(aligned_end(off, len) >= e) by {
        vstd::arithmetic::div_mod::lemma_mod_bound(e + 4095, 4096);
    }
    assert(aligned_end(off, len) <= devlen) by {
        let q = (e + 4095) / 4096;
        let d = devlen / 4096;
        assert(e <= 4096 * d);
        assert(e + 4095 < 4096 * (d + 1));
        assert(q < d + 1) by {
            if q >= d + 1 {
                vstd::arithmetic::div_mod::lemma_mod_bound(e + 4095, 4096);
                assert(4096 * q <= e + 4095) by (nonlinear_arith)
                    requires
                        q == (e + 4095) / 4096,
                        e + 4095 >= 0,
                {
                    vstd::arithmetic::div_mod::lemma_fundamental_div_mod(e + 4095, 4096);
                    vstd::arithmetic::div_mod::lemma_mod_bound(e + 4095, 4096);
                }
                assert(4096 * (d + 1) <= 4096 * q) by (nonlinear_arith)
                    requires
                        d + 1 <= q,
                ;
            }
        }
        assert(4096 * q <= 4096 * d) by (nonlinear_arith)
            requires
                q <= d,
        ;
    }
    assert(0 <= aligned_start(off)) by {
        vstd::arithmetic::div_mod::lemma_div_pos_is_pos(off, 4096);
        assert(4096 * (off / 4096) >= 0) by (nonlinear_arith)
            requires
                off / 4096 >= 0,
        ;
    }
    assert(aligned_start(off) <= off) by {
        vstd::arithmetic::div_mod::lemma_mod_bound(off, 4096);
    }
}

/// Law: reading any byte range yields the same bytes as reading the whole
/// enclosing 4096-aligned range and slicing out the interior window.
pub proof fn lemma_read_offset_alignment(dev: Seq<u8>, off: int, len: int)
    requires
        dev.len() % 4096 == 0,
        0 <= off,
        0 < len,
        off + len <= dev.len(),
    ensures
        ({
            let astart = aligned_start(off);
            let aend = aligned_end(off, len);
            dev.subrange(off, off + len) == dev.subrange(astart, aend).subrange(
                off - astart,
                off - astart + len,
            )
        }),
{
    lemma_aligned_range(dev.len() as int, off, len);
    let astart = aligned_start(off);
    let aend = aligned_end(off, len);
    assert(dev.subrange(off, off + len) =~= dev.subrange(astart, aend).subrange(
        off - astart,
        off - astart + len,
    ));
}

/// Law: writing the same bytes twice leaves the volume exactly as one write
/// does, and a subsequent read of the written range yields those bytes,
/// whatever the volume held before.
pub proof fn lemma_write_blocks_idempotent(dev: Seq<u8>, off: int, b: Seq<u8>)
    requires
        0 <= off,
        off + b.len() <= dev.len(),
    ensures
        splice(splice(dev, off, b), off, b) == splice(dev, off, b),
        splice(dev, off, b).subrange(off, off + b.len()) == b,
        splice(dev, off, b).len() == dev.len(),
{
    assert(splice(splice(dev, off, b), off, b) =~= splice(dev, off, b));
    assert(splice(dev, off, b).subrange(off, off + b.len()) =~= b);
}

} // verus!

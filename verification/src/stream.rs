//! Stream adapters: byte-level read/write/seek delegating through a page
//! buffer, and the plumbing that wraps a raw stream as a block device.

use vstd::prelude::*;
use crate::device::BlockDevice;
use crate::domain_error::DomainError;
use crate::error::FsError;
use crate::file::SeekFrom;
use crate::page_buffer::PageBuffer;
use crate::page_config::PageConfig;
use crate::page_number::PageNumber;

verus! {

/// What a streaming operation can fail with.
#[derive(Debug)]
pub enum StreamError<E> {
    /// The underlying storage failed.
    Storage(E),
    /// The operation would run past the storage's end.
    OutOfBounds,
    /// The seek target lies before byte zero.
    InvalidSeek,
}

impl<E> StreamError<E> {
    /// Render as text.
    pub fn display_string(&self) -> (r: String)
    {
        match self {
            StreamError::Storage(_) => {
                let mut s = String::new();
                s.append("Storage error");
                s
            },
            StreamError::OutOfBounds => {
                let mut s = String::new();
                s.append("Operation would exceed storage bounds");
                s
            },
            StreamError::InvalidSeek => {
                let mut s = String::new();
                s.append("Invalid seek position");
                s
            },
        }
    }
}

/// Plumbing that carries any inner stream as a block-device endpoint; the
/// async trait impls that drive it live with the host code.
pub struct StreamBlockDevice<T> {
    inner: T,
}

impl<T> StreamBlockDevice<T> {
    /// The wrapped stream.
    pub closed spec fn spec_inner(&self) -> &T {
        &self.inner
    }

    /// Wrap a stream.
    pub fn new(inner: T) -> (r: Self)
        ensures
            r.spec_inner() == inner,
    {
        StreamBlockDevice { inner }
    }

    /// The wrapped stream.
    pub fn inner(&self) -> (r: &T)
        ensures
            r == self.spec_inner(),
    {
        &self.inner
    }

    /// The wrapped stream, mutably.
    pub fn inner_mut(&mut self) -> (r: &mut T)
        ensures
            *r == *old(self).spec_inner(),
            *final(self).spec_inner() == *final(r),
    {
        &mut self.inner
    }

    /// Unwrap the stream.
    pub fn into_inner(self) -> (r: T)
        ensures
            r == self.spec_inner(),
    {
        self.inner
    }
}

/// A byte-level cursor over a block device, buffered one page at a time.
///
/// Between operations the held page, when there is one, is clean and
/// byte-identical to its storage range — every write pushes its page
/// through before returning — so the stream's content is always exactly
/// the storage bytes.
pub struct HeapPageStream {
    buffer: PageBuffer<512>,
    position: u64,
    page_size: usize,
}

impl HeapPageStream {
    /// The cursor.
    pub closed spec fn spec_position(&self) -> u64 {
        self.position
    }

    /// The page size.
    pub closed spec fn spec_page_size(&self) -> usize {
        self.page_size
    }

    /// The underlying buffer.
    pub closed spec fn spec_buffer(&self) -> PageBuffer<512> {
        self.buffer
    }

    /// The storage bytes under the stream.
    pub open spec fn spec_storage(&self) -> Seq<u8> {
        self.spec_buffer().spec_storage()
    }

    /// Geometry is sane, the device is a whole number of pages, and the
    /// held page (if any) is clean and in step with its storage range.
    pub open spec fn wf(&self) -> bool {
        &&& self.spec_page_size() >= 512
        &&& self.spec_page_size() % 512 == 0
        &&& self.spec_buffer().wf()
        &&& self.spec_buffer().spec_config().spec_page_size() == self.spec_page_size()
        &&& self.spec_storage().len() as int % self.spec_page_size() as int == 0
        &&& match self.spec_buffer().spec_current() {
            Some(p) => {
                &&& p.spec_state() == crate::page_state::PageState::Clean
                &&& p@.len() == self.spec_page_size()
                &&& p.spec_number().0 * self.spec_page_size() as int
                    + self.spec_page_size() as int <= self.spec_storage().len()
                &&& p@ == self.spec_storage().subrange(
                    p.spec_number().0 * self.spec_page_size() as int,
                    p.spec_number().0 * self.spec_page_size() as int
                        + self.spec_page_size() as int)
            },
            None => true,
        }
    }

    /// A stream over `device` buffering pages of `page_size` bytes:
    /// `page_size` must be a positive multiple of the block size and the
    /// device a whole number of pages.
    pub fn new(device: BlockDevice, page_size: usize) -> (r: Result<
        Self, StreamError<FsError>>)
        ensures
            match r {
                Ok(s) => {
                    &&& s.wf()
                    &&& s.spec_position() == 0
                    &&& s.spec_page_size() == page_size
                    &&& s.spec_storage() == device@
                },
                Err(StreamError::OutOfBounds) => page_size == 0
                    || page_size as int % 512 != 0
                    || device@.len() as int % page_size as int != 0,
                Err(_) => false,
            },
    {
        if page_size == 0 || page_size % 512 != 0 {
            return Err(StreamError::OutOfBounds);
        }
        if device.size() % page_size != 0 {
            return Err(StreamError::OutOfBounds);
        }
        let config = match PageConfig::<512>::from_page_size(page_size) {
            Ok(c) => c,
            Err(_) => {
                return Err(StreamError::OutOfBounds);
            },
        };
        Ok(HeapPageStream {
            buffer: PageBuffer::new(device, config),
            position: 0,
            page_size,
        })
    }

    /// Build a stream or stop the program: for callers who know the
    /// geometry is sound.
    pub fn new_unwrap(device: BlockDevice, page_size: usize) -> (r: Self)
        requires
            page_size >= 512,
            page_size as int % 512 == 0,
            device@.len() as int % page_size as int == 0,
        ensures
            r.wf(),
            r.spec_position() == 0,
            r.spec_page_size() == page_size,
            r.spec_storage() == device@,
    {
        proof {
            assert(page_size == (page_size as int / 512) * 512) by (nonlinear_arith)
                requires page_size as int % 512 == 0;
            assert(page_size as int / 512 >= 1) by (nonlinear_arith)
                requires page_size >= 512, page_size as int % 512 == 0;
        }
        let config = PageConfig::<512>::new(page_size, page_size / 512);
        HeapPageStream {
            buffer: PageBuffer::new(device, config),
            position: 0,
            page_size,
        }
    }

    /// The cursor position.
    pub fn position(&self) -> (r: u64)
        ensures
            r == self.spec_position(),
    {
        self.position
    }

    /// The page size.
    pub fn page_size(&self) -> (r: usize)
        ensures
            r == self.spec_page_size(),
    {
        self.page_size
    }

    /// Total bytes of the underlying storage.
    pub fn size(&self) -> (r: u64)
        ensures
            r == self.spec_storage().len(),
    {
        self.buffer.storage_size()
    }

    /// Move the cursor: `Ok(p)` lands exactly on the variant's target, and
    /// `InvalidSeek` comes exactly when the target would fall before byte
    /// zero or past the address space, leaving the cursor alone.
    pub fn seek(&mut self, from: SeekFrom) -> (r: Result<u64, StreamError<FsError>>)
        ensures
            final(self).spec_page_size() == old(self).spec_page_size(),
            final(self).spec_buffer() == old(self).spec_buffer(),
            final(self).wf() == old(self).wf(),
            match r {
                Ok(p) => {
                    &&& final(self).spec_position() == p
                    &&& match from {
                        SeekFrom::Start(x) => p == x,
                        SeekFrom::Current(d) => p == old(self).spec_position() + d,
                        SeekFrom::End(d) => p == old(self).spec_storage().len() + d,
                    }
                },
                Err(StreamError::InvalidSeek) => {
                    &&& final(self).spec_position() == old(self).spec_position()
                    &&& match from {
                        SeekFrom::Start(x) => false,
                        SeekFrom::Current(d) => old(self).spec_position() + d < 0
                            || old(self).spec_position() + d > u64::MAX,
                        SeekFrom::End(d) => old(self).spec_storage().len() + d < 0
                            || old(self).spec_storage().len() + d > u64::MAX,
                    }
                },
                Err(_) => false,
            },
    {
        match from {
            SeekFrom::Start(x) => {
                self.position = x;
                Ok(x)
            },
            SeekFrom::Current(d) => {
                if d >= 0 {
                    let du = d as u64;
                    if self.position > u64::MAX - du {
                        return Err(StreamError::InvalidSeek);
                    }
                    self.position = self.position + du;
                    Ok(self.position)
                } else {
                    let mag: u64 = if d == i64::MIN { 0x8000000000000000u64 } else {
                        (-d) as u64
                    };
                    if mag > self.position {
                        return Err(StreamError::InvalidSeek);
                    }
                    self.position = self.position - mag;
                    Ok(self.position)
                }
            },
            SeekFrom::End(d) => {
                let n = self.buffer.storage_size();
                if d >= 0 {
                    let du = d as u64;
                    if n > u64::MAX - du {
                        return Err(StreamError::InvalidSeek);
                    }
                    self.position = n + du;
                    Ok(self.position)
                } else {
                    let mag: u64 = if d == i64::MIN { 0x8000000000000000u64 } else {
                        (-d) as u64
                    };
                    if mag > n {
                        return Err(StreamError::InvalidSeek);
                    }
                    self.position = n - mag;
                    Ok(self.position)
                }
            },
        }
    }

    /// Read up to `len` bytes at the cursor: exactly the storage bytes
    /// there, short only at the storage's end; the cursor advances by the
    /// count read. `OutOfBounds` exactly when a touched page number would
    /// not fit the page-number type, and then nothing changes.
    pub fn read(&mut self, len: usize) -> (r: Result<Vec<u8>, StreamError<FsError>>)
        requires
            old(self).wf(),
        ensures
            final(self).wf(),
            final(self).spec_page_size() == old(self).spec_page_size(),
            final(self).spec_storage() == old(self).spec_storage(),
            ({
                let n = old(self).spec_storage().len() as int;
                let pos = old(self).spec_position() as int;
                let k = if pos >= n { 0int } else if n - pos < len { n - pos } else {
                    len as int
                };
                match r {
                    Ok(v) => {
                        &&& v@.len() == k
                        &&& final(self).spec_position() == pos + k
                        &&& forall|i: int| 0 <= i < k
                            ==> v@[i] == old(self).spec_storage()[pos + i]
                    },
                    Err(StreamError::OutOfBounds) => {
                        &&& final(self).spec_position() == old(self).spec_position()
                        &&& k > 0 && (pos + k - 1) / old(self).spec_page_size() as int
                            > u32::MAX
                    },
                    Err(_) => false,
                }
            }),
    {
        let ghost s0 = self.spec_storage();
        let n = self.buffer.storage_size();
        let pos0 = self.position;
        let avail: u64 = if pos0 >= n { 0 } else { n - pos0 };
        let k: u64 = if avail < len as u64 { avail } else { len as u64 };
        if k == 0 {
            return Ok(Vec::new());
        }
        let ps64 = self.page_size as u64;
        if (pos0 + k - 1) / ps64 > u32::MAX as u64 {
            return Err(StreamError::OutOfBounds);
        }
        let mut out: Vec<u8> = Vec::new();
        let kk = k as usize;
        let mut i: usize = 0;
        while i < kk
            invariant
                self.wf(),
                self.spec_storage() == s0,
                self.spec_page_size() == old(self).spec_page_size(),
                self.spec_position() == pos0,
                pos0 == old(self).spec_position(),
                i <= kk,
                1 <= kk,
                pos0 + kk <= s0.len(),
                pos0 + kk <= u64::MAX,
                ps64 == self.spec_page_size() as u64,
                ps64 >= 512,
                (pos0 + kk - 1) as int / ps64 as int <= u32::MAX,
                out@.len() == i,
                forall|x: int| 0 <= x < i ==> out@[x] == s0[pos0 + x],
            decreases kk - i,
        {
            let p: u64 = pos0 + i as u64;
            let pi: u64 = p / ps64;
            let off: usize = (p % ps64) as usize;
            proof {
                lemma_page_grid(s0.len() as int, self.spec_page_size() as int, p as int);
                assert(p as int / ps64 as int <= (pos0 + kk - 1) as int / ps64 as int)
                    by (nonlinear_arith)
                    requires p <= pos0 + kk - 1, ps64 >= 1;
            }
            match self.buffer.load(PageNumber::new(pi as u32)) {
                Ok(()) => {},
                Err(_) => {
                    // A held page is always clean and every touched page
                    // lies inside the whole-page device.
                    proof {
                        assert(false);
                    }
                    return Err(StreamError::OutOfBounds);
                },
            }
            let byte = match self.buffer.current() {
                Ok(pg) => {
                    let d = pg.data();
                    d[off]
                },
                Err(_) => {
                    proof {
                        assert(false);
                    }
                    return Err(StreamError::OutOfBounds);
                },
            };
            proof {
                vstd::arithmetic::div_mod::lemma_fundamental_div_mod(p as int,
                    self.spec_page_size() as int);
                assert(pi as int * self.spec_page_size() as int
                    == self.spec_page_size() as int * pi as int) by (nonlinear_arith);
                assert(pi as int * self.spec_page_size() as int + off == p);
                assert(byte == s0[p as int]);
            }
            out.push(byte);
            i = i + 1;
        }
        self.position = pos0 + k;
        Ok(out)
    }

    /// Write `data` at the cursor, page by page, each page pushed through
    /// to storage before the next: afterwards storage holds exactly `data`
    /// at the written range and is elsewhere untouched, and the cursor
    /// sits at the range's end. `OutOfBounds` exactly when the write would
    /// pass the storage's end or a touched page number would not fit, and
    /// then nothing changes.
    pub fn write(&mut self, data: &Vec<u8>) -> (r: Result<(), StreamError<FsError>>)
        requires
            old(self).wf(),
        ensures
            final(self).wf(),
            final(self).spec_page_size() == old(self).spec_page_size(),
            ({
                let n = old(self).spec_storage().len() as int;
                let pos = old(self).spec_position() as int;
                match r {
                    Ok(()) => {
                        &&& pos + data@.len() <= n
                        &&& final(self).spec_position() == pos + data@.len()
                        &&& final(self).spec_storage().len() == n
                        &&& forall|j: int| 0 <= j < data@.len()
                            ==> #[trigger] final(self).spec_storage()[pos + j] == data@[j]
                        &&& forall|q: int|
                            0 <= q < n && !(pos <= q < pos + data@.len())
                                ==> final(self).spec_storage()[q]
                                    == old(self).spec_storage()[q]
                    },
                    Err(StreamError::OutOfBounds) => {
                        &&& final(self).spec_position() == old(self).spec_position()
                        &&& final(self).spec_storage() == old(self).spec_storage()
                        &&& (pos + data@.len() > n
                            || (data@.len() > 0
                                && (pos + data@.len() - 1)
                                    / old(self).spec_page_size() as int > u32::MAX))
                    },
                    Err(_) => false,
                }
            }),
    {
        let ghost s0 = self.spec_storage();
        let n = self.buffer.storage_size();
        let pos0 = self.position;
        if pos0 > n || data.len() as u64 > n - pos0 {
            return Err(StreamError::OutOfBounds);
        }
        if data.len() == 0 {
            return Ok(());
        }
        let ps64 = self.page_size as u64;
        if (pos0 + data.len() as u64 - 1) / ps64 > u32::MAX as u64 {
            return Err(StreamError::OutOfBounds);
        }
        let kk = data.len();
        let mut i: usize = 0;
        while i < kk
            invariant
                self.wf(),
                self.spec_page_size() == old(self).spec_page_size(),
                self.spec_position() == pos0,
                pos0 == old(self).spec_position(),
                i <= kk,
                1 <= kk,
                kk == data@.len(),
                pos0 + kk <= self.spec_storage().len(),
                pos0 + kk <= u64::MAX,
                self.spec_storage().len() == s0.len(),
                s0 == old(self).spec_storage(),
                ps64 == self.spec_page_size() as u64,
                ps64 >= 512,
                (pos0 + kk - 1) as int / ps64 as int <= u32::MAX,
                forall|x: int| 0 <= x < i
                    ==> #[trigger] self.spec_storage()[pos0 + x] == data@[x],
                forall|q: int|
                    0 <= q < s0.len() && !(pos0 <= q < pos0 + i)
                        ==> self.spec_storage()[q] == s0[q],
            decreases kk - i,
        {
            let ghost s_pre = self.spec_storage();
            let p: u64 = pos0 + i as u64;
            let pi: u64 = p / ps64;
            let off: usize = (p % ps64) as usize;
            proof {
                lemma_page_grid(s_pre.len() as int, self.spec_page_size() as int, p as int);
                assert(p as int / ps64 as int <= (pos0 + kk - 1) as int / ps64 as int)
                    by (nonlinear_arith)
                    requires p <= pos0 + kk - 1, ps64 >= 1;
            }
            match self.buffer.load(PageNumber::new(pi as u32)) {
                Ok(()) => {},
                Err(_) => {
                    proof {
                        assert(false);
                    }
                    return Err(StreamError::OutOfBounds);
                },
            }
            let ghost cur_loaded = self.buffer.spec_current();
            let mut one: Vec<u8> = Vec::new();
            one.push(data[i]);
            match self.buffer.modify(off, &one) {
                Ok(_) => {},
                Err(_) => {
                    proof {
                        assert(false);
                    }
                    return Err(StreamError::OutOfBounds);
                },
            }
            let ghost cur_mod = self.buffer.spec_current();
            match self.buffer.flush() {
                Ok(()) => {},
                Err(_) => {
                    proof {
                        assert(false);
                    }
                    return Err(StreamError::OutOfBounds);
                },
            }
            proof {
                let ps = self.spec_page_size() as int;
                vstd::arithmetic::div_mod::lemma_fundamental_div_mod(p as int, ps);
                assert(pi as int * ps == ps * pi as int) by (nonlinear_arith);
                assert(pi as int * ps + off == p);
                let lo = pi as int * ps;
                match cur_loaded {
                    Some(q0) => {
                        match cur_mod {
                            Some(q1) => {
                                assert(q0.spec_number().0 == pi);
                                assert(q0@ == s_pre.subrange(lo, lo + ps));
                                assert(q1.spec_number() == q0.spec_number());
                                assert(q1@.len() == ps);
                                assert(one@[0] == data@[i as int]);
                                assert(q1@[off + 0] == one@[0]);
                                assert(q1@[off as int] == data@[i as int]);
                                // The flushed page changed storage only at
                                // its range, byte for byte as the page read.
                                assert forall|j: int| 0 <= j < ps && j != off
                                    implies #[trigger] self.spec_storage()[lo + j]
                                        == s_pre[lo + j] by {
                                    assert(self.spec_storage()[lo + j] == q1@[j]);
                                    assert(q1@[j] == q0@[j]);
                                    assert(q0@[j] == s_pre.subrange(lo, lo + ps)[j]);
                                }
                                assert(self.spec_storage()[lo + off] == q1@[off as int]);
                                lemma_stream_write_step(s_pre, self.spec_storage(), s0,
                                    data@, pos0 as int, i as int, ps, pi as int,
                                    off as int);
                                // The held page is clean again and in step
                                // with the bytes it just pushed through.
                                match self.spec_buffer().spec_current() {
                                    Some(q2) => {
                                        assert(q2@ == q1@);
                                        assert(q2.spec_number() == q1.spec_number());
                                        assert(q2@ =~= self.spec_storage().subrange(lo,
                                            lo + ps)) by {
                                            assert forall|j: int| 0 <= j < ps
                                                implies q2@[j]
                                                    == self.spec_storage()[lo + j] by {
                                                assert(self.spec_storage()[lo + j]
                                                    == q1@[j]);
                                            }
                                        }
                                        assert(self.wf());
                                    },
                                    None => {
                                        assert(false);
                                    },
                                }
                            },
                            None => {
                                assert(false);
                            },
                        }
                    },
                    None => {
                        assert(false);
                    },
                }
            }
            i = i + 1;
        }
        self.position = pos0 + kk as u64;
        Ok(())
    }

    /// Push any buffered page through. The write path already flushes as
    /// it goes, so the held page is clean and this changes nothing.
    pub fn flush(&mut self) -> (r: Result<(), StreamError<FsError>>)
        requires
            old(self).wf(),
        ensures
            *final(self) == *old(self),
            r is Ok,
    {
        match self.buffer.flush() {
            Ok(()) => Ok(()),
            Err(_) => {
                proof {
                    assert(false);
                }
                Err(StreamError::Storage(FsError::IoError))
            },
        }
    }
}

/// On a whole-page device, the page holding any in-range byte offset lies
/// whole inside the device.
proof fn lemma_page_grid(n: int, ps: int, p: int)
    requires
        ps >= 1,
        n % ps == 0,
        0 <= p < n,
    ensures
        (p / ps) * ps + ps <= n,
        0 <= p / ps,
        0 <= p % ps < ps,
{
    vstd::arithmetic::div_mod::lemma_fundamental_div_mod(p, ps);
    vstd::arithmetic::div_mod::lemma_fundamental_div_mod(n, ps);
    vstd::arithmetic::div_mod::lemma_mod_bound(p, ps);
    assert((p / ps) * ps + ps <= n) by (nonlinear_arith)
        requires
            p == ps * (p / ps) + p % ps,
            n == ps * (n / ps) + n % ps,
            n % ps == 0,
            0 <= p % ps < ps,
            p < n,
            ps >= 1;
    assert(0 <= p / ps) by (nonlinear_arith)
        requires p >= 0, ps >= 1;
}

/// One write step through the page buffer: after modifying byte `off` of
/// page `pi` and flushing it, storage changed at exactly the one position
/// `pi * ps + off`, which is byte `pos + i` of the write.
proof fn lemma_stream_write_step(s_pre: Seq<u8>, s_post: Seq<u8>, s0: Seq<u8>,
    data: Seq<u8>, pos: int, i: int, ps: int, pi: int, off: int)
    requires
        ps >= 1,
        pos >= 0,
        0 <= i < data.len(),
        s_pre.len() == s_post.len(),
        s_pre.len() == s0.len(),
        pos + data.len() <= s0.len(),
        pi * ps + off == pos + i,
        0 <= off < ps,
        pi * ps >= 0,
        pi * ps + ps <= s_pre.len(),
        // The flushed page carried the pre-state's bytes except at `off`.
        forall|j: int| 0 <= j < ps && j != off
            ==> #[trigger] s_post[pi * ps + j] == s_pre[pi * ps + j],
        s_post[pi * ps + off] == data[i],
        forall|q: int| 0 <= q < s_pre.len() && !(pi * ps <= q < pi * ps + ps)
            ==> #[trigger] s_post[q] == s_pre[q],
        // Accumulated facts about the pre-state.
        forall|x: int| 0 <= x < i ==> #[trigger] s_pre[pos + x] == data[x],
        forall|q: int| 0 <= q < s0.len() && !(pos <= q < pos + i)
            ==> #[trigger] s_pre[q] == s0[q],
    ensures
        forall|x: int| 0 <= x < i + 1 ==> #[trigger] s_post[pos + x] == data[x],
        forall|q: int| 0 <= q < s0.len() && !(pos <= q < pos + i + 1)
            ==> #[trigger] s_post[q] == s0[q],
{
    assert forall|x: int| 0 <= x < i + 1 implies #[trigger] s_post[pos + x] == data[x] by {
        if x < i {
            if pi * ps <= pos + x < pi * ps + ps {
                assert(pos + x != pi * ps + off);
                let j = pos + x - pi * ps;
                assert(s_post[pi * ps + j] == s_pre[pi * ps + j]);
            } else {
                assert(s_post[pos + x] == s_pre[pos + x]);
            }
        }
    }
    assert forall|q: int| 0 <= q < s0.len() && !(pos <= q < pos + i + 1)
        implies #[trigger] s_post[q] == s0[q] by {
        if pi * ps <= q < pi * ps + ps {
            assert(q != pi * ps + off);
            let j = q - pi * ps;
            assert(s_post[pi * ps + j] == s_pre[pi * ps + j]);
        } else {
            assert(s_post[q] == s_pre[q]);
        }
    }
}

} // verus!

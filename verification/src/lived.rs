//! The live disk: a disk image in memory that is never written; writes go to
//! copies of its pages, which later reads prefer.

use vstd::prelude::*;
use std::collections::BTreeMap;

verus! {

broadcast use vstd::std_specs::btree::group_btree_axioms, vstd::laws_cmp::group_laws_cmp;

/// Size of the pages that writes copy.
pub const PAGE_SIZE: usize = 4096;

/// Why a live disk refuses a transfer.
#[derive(Clone, Copy, Debug, PartialEq, Eq, Structural)]
pub enum LiveError {
    /// The transfer runs past the end of the image.
    Invalid,
}

/// A disk image with a copy-on-write overlay of pages, by page number.
pub struct LiveDisk {
    pub original: Vec<u8>,
    pub overlay: BTreeMap<u64, Vec<u8>>,
}

/// Byte `j` of the disk that `original` and `overlay` make up.
pub open spec fn live_byte(original: Seq<u8>, overlay: Map<u64, Vec<u8>>, j: int) -> u8 {
    let k = (j / PAGE_SIZE as int) as u64;
    if overlay.contains_key(k) {
        overlay[k]@[j % PAGE_SIZE as int]
    } else {
        original[j]
    }
}

/// The content of the disk that `original` and `overlay` make up.
pub open spec fn live_view(original: Seq<u8>, overlay: Map<u64, Vec<u8>>) -> Seq<u8> {
    Seq::new(original.len(), |j: int| live_byte(original, overlay, j))
}

/// `s` with the bytes from `at` on replaced by `data`.
pub open spec fn overwrite(s: Seq<u8>, at: int, data: Seq<u8>) -> Seq<u8> {
    Seq::new(s.len(), |j: int| if at <= j < at + data.len() { data[j - at] } else { s[j] })
}

impl LiveDisk {
    /// The image is whole pages, and each copied page is a whole page of it.
    pub open spec fn wf(&self) -> bool {
        &&& self.original@.len() % (PAGE_SIZE as nat) == 0
        &&& forall|k: u64|
            #[trigger] self.overlay@.contains_key(k) ==> self.overlay@[k]@.len() == PAGE_SIZE && (k + 1)
                * PAGE_SIZE <= self.original@.len()
    }

    /// What a read of the disk sees.
    pub open spec fn view(&self) -> Seq<u8> {
        live_view(self.original@, self.overlay@)
    }

    /// A live disk over `original`, with nothing written yet.
    pub fn new(original: Vec<u8>) -> (r: Self)
        requires
            original@.len() % (PAGE_SIZE as nat) == 0,
        ensures
            r.wf(),
            r.view() == original@,
    {
        let r = LiveDisk { original, overlay: BTreeMap::new() };
        assert(r.view() =~= r.original@);
        r
    }

    pub fn block_size(&self) -> (r: u32)
        ensures
            r == PAGE_SIZE,
    {
        PAGE_SIZE as u32
    }

    pub fn size(&self) -> (r: u64)
        ensures
            r == self.original@.len(),
    {
        self.original.len() as u64
    }

    /// Reads `buffer.len()` bytes from page `block` on.
    pub fn read(&self, block: u64, buffer: &mut [u8]) -> (r: Result<usize, LiveError>)
        requires
            self.wf(),
            block * PAGE_SIZE + old(buffer)@.len() <= usize::MAX,
        ensures
            ({
                let offset = block * PAGE_SIZE;
                if offset + old(buffer)@.len() > self.original@.len() {
                    &&& r == Err::<usize, LiveError>(LiveError::Invalid)
                    &&& final(buffer)@ == old(buffer)@
                } else {
                    &&& r == Ok::<usize, LiveError>(old(buffer)@.len() as usize)
                    &&& final(buffer)@ == self.view().subrange(offset, offset + old(buffer)@.len())
                }
            }),
    {
        let offset = (block as usize) * PAGE_SIZE;
        if offset + buffer.len() > self.original.len() {
            return Err(LiveError::Invalid);
        }
        let len = buffer.len();
        let mut i: usize = 0;
        while i < len
            invariant
                self.wf(),
                offset + len <= usize::MAX,
                offset == block * PAGE_SIZE,
                offset + len <= self.original@.len(),
                len == buffer@.len(),
                i <= len,
                forall|j: int| 0 <= j < i ==> buffer@[j] == self.view()[offset + j],
            decreases len - i,
        {
            let pos = offset + i;
            let page = (pos / PAGE_SIZE) as u64;
            let byte = match self.overlay.get(&page) {
                Some(p) => p[pos % PAGE_SIZE],
                None => self.original[pos],
            };
            buffer[i] = byte;
            i = i + 1;
        }
        assert(buffer@ =~= self.view().subrange(offset as int, offset + len));
        Ok(len)
    }

    /// Writes `buffer` from page `block` on, copying each page it touches
    /// into the overlay first.
    pub fn write(&mut self, block: u64, buffer: &[u8]) -> (r: Result<usize, LiveError>)
        requires
            old(self).wf(),
            block * PAGE_SIZE + buffer@.len() <= usize::MAX,
        ensures
            final(self).wf(),
            final(self).original@ == old(self).original@,
            ({
                let offset = block * PAGE_SIZE;
                if offset + buffer@.len() > old(self).original@.len() {
                    &&& r == Err::<usize, LiveError>(LiveError::Invalid)
                    &&& final(self).view() == old(self).view()
                } else {
                    &&& r == Ok::<usize, LiveError>(buffer@.len() as usize)
                    &&& final(self).view() == overwrite(old(self).view(), offset as int, buffer@)
                }
            }),
    {
        let offset = (block as usize) * PAGE_SIZE;
        if offset + buffer.len() > self.original.len() {
            return Err(LiveError::Invalid);
        }
        let len = buffer.len();
        let ghost old_view = self.view();
        let olen = self.original.len();
        let mut i: usize = 0;
        while i < len
            invariant
                self.wf(),
                olen == self.original@.len(),
                offset + len <= usize::MAX,
                self.original@ == old(self).original@,
                old_view == old(self).view(),
                offset == block * PAGE_SIZE,
                offset + len <= self.original@.len(),
                len == buffer@.len(),
                i <= len,
                self.view() == overwrite(old_view, offset as int, buffer@.take(i as int)),
            decreases len - i,
        {
            let pos = offset + i;
            let page_no = (pos / PAGE_SIZE) as u64;
            let in_page = pos % PAGE_SIZE;
            assert(page_no * 4096 + in_page == pos);
            assert((page_no + 1) * PAGE_SIZE <= self.original@.len()) by (nonlinear_arith)
                requires
                    page_no == pos / 4096,
                    pos < self.original@.len(),
                    self.original@.len() % 4096 == 0,
            ;
            let ghost before = self.view();
            let ghost before_map = self.overlay@;
            let start = (page_no as usize) * PAGE_SIZE;
            assert(start <= pos < start + 4096);
            let mut page = match self.overlay.remove(&page_no) {
                Some(p) => p,
                None => {
                    let mut p: Vec<u8> = Vec::new();
                    let mut k: usize = 0;
                    while k < PAGE_SIZE
                        invariant
                            k <= PAGE_SIZE,
                            olen == self.original@.len(),
                            start + PAGE_SIZE <= self.original@.len(),
                            p@ == self.original@.subrange(start as int, start + k),
                        decreases PAGE_SIZE - k,
                    {
                        p.push(self.original[start + k]);
                        k = k + 1;
                        assert(p@ =~= self.original@.subrange(start as int, start + k));
                    }
                    p
                },
            };
            proof {
                assert forall|t: int| 0 <= t < 4096 implies page@[t] == before[start + t] by {
                    assert((start + t) / 4096 == page_no as int);
                    assert((start + t) % 4096 == t);
                }
                assert(self.overlay@ == before_map.remove(page_no));
            }
            page.set(in_page, buffer[i]);
            self.overlay.insert(page_no, page);
            proof {
                let after = self.view();
                let target = overwrite(old_view, offset as int, buffer@.take(i + 1));
                assert(self.overlay@ == before_map.insert(page_no, page));
                assert forall|j: int| 0 <= j < after.len() implies after[j] == target[j] by {
                    let q = j / 4096;
                    assert(j == q * 4096 + j % 4096);
                    assert(q <= j);
                    let k = q as u64;
                    if k == page_no {
                        assert(j % 4096 == in_page <==> j == pos);
                        assert(after[j] == page@[j % 4096]);
                        if j != pos {
                            assert(page@[j % 4096] == before[start + j % 4096]);
                        }
                    } else {
                        assert(after[j] == before[j]);
                    }
                }
                assert(after =~= target);
            }
            i = i + 1;
        }
        assert(buffer@.take(len as int) =~= buffer@);
        Ok(len)
    }
}

/// A read of what was just written gives back the bytes written.
pub proof fn lemma_read_after_write(view: Seq<u8>, at: int, data: Seq<u8>)
    requires
        0 <= at,
        at + data.len() <= view.len(),
    ensures
        overwrite(view, at, data).subrange(at, at + data.len()) == data,
        forall|j: int|
            0 <= j < view.len() && !(at <= j < at + data.len()) ==> #[trigger] overwrite(view, at, data)[j]
                == view[j],
{
    assert(overwrite(view, at, data).subrange(at, at + data.len()) =~= data);
}

} // verus!

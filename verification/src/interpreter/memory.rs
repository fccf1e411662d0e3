//! Linear memory: a growable byte buffer counted in 64 KiB pages.

use vstd::prelude::*;
use crate::elements::import_entry::MemoryType;
use crate::interpreter::Error;

verus! {

/// Bytes in one page of linear memory.
pub const LINEAR_MEMORY_PAGE_SIZE: u32 = 65536;

/// The page count growing cannot exceed, host-imposed when the module
/// declares no maximum.
pub const ABSOLUTE_MAX_PAGES: u32 = 65535;

/// A linear memory instance: a byte buffer sized in whole pages, bounded
/// by a maximum page count.
#[derive(Debug)]
pub struct MemoryInstance {
    data: Vec<u8>,
    max_pages: u32,
}

impl MemoryInstance {
    /// The buffer, for contracts.
    pub closed spec fn spec_data(&self) -> Seq<u8> {
        self.data@
    }

    /// The page bound, for contracts.
    pub closed spec fn spec_max_pages(&self) -> u32 {
        self.max_pages
    }

    /// The memory's invariant: whole pages, never beyond the maximum.
    pub open spec fn wf(&self) -> bool {
        &&& (self.spec_data().len() as int) % (LINEAR_MEMORY_PAGE_SIZE as int) == 0
        &&& self.spec_data().len() <= self.spec_max_pages() * (LINEAR_MEMORY_PAGE_SIZE as int)
        &&& self.spec_max_pages() <= ABSOLUTE_MAX_PAGES
    }

    /// The current size in pages.
    pub open spec fn spec_pages(&self) -> int {
        (self.spec_data().len() as int) / (LINEAR_MEMORY_PAGE_SIZE as int)
    }

    /// New memory of `limits.initial` zeroed pages, growable up to the
    /// declared maximum or the host cap.
    pub fn new(memory_type: &MemoryType) -> (r: Result<Self, Error>)
        ensures
            match r {
                Ok(m) => {
                    &&& m.wf()
                    &&& memory_type.0.initial <= ABSOLUTE_MAX_PAGES
                    &&& m.spec_pages() == memory_type.0.initial
                    &&& m.spec_max_pages() == (match memory_type.0.maximum {
                        Some(max) => if max <= ABSOLUTE_MAX_PAGES {
                            max
                        } else {
                            ABSOLUTE_MAX_PAGES
                        },
                        None => ABSOLUTE_MAX_PAGES,
                    })
                    &&& (forall|i: int|
                        0 <= i < m.spec_data().len() ==> m.spec_data()[i] == 0u8)
                },
                Err(e) => e == Error::MemoryTooLarge && (memory_type.0.initial > ABSOLUTE_MAX_PAGES
                    || (memory_type.0.maximum matches Some(max) && memory_type.0.initial > max)),
            },
    {
        let initial = memory_type.limits().initial();
        let max_pages: u32 = match memory_type.limits().maximum() {
            Some(max) => {
                if initial > max {
                    return Err(Error::MemoryTooLarge);
                }
                if max <= ABSOLUTE_MAX_PAGES {
                    max
                } else {
                    ABSOLUTE_MAX_PAGES
                }
            },
            None => ABSOLUTE_MAX_PAGES,
        };
        if initial > ABSOLUTE_MAX_PAGES {
            return Err(Error::MemoryTooLarge);
        }
        proof {
            assert((initial as int) * (LINEAR_MEMORY_PAGE_SIZE as int) <= 65535 * 65536)
                by (nonlinear_arith)
                requires
                    initial <= 65535,
            ;
        }
        let byte_len: usize = (initial as usize) * (LINEAR_MEMORY_PAGE_SIZE as usize);
        let data: Vec<u8> = vstd::slice::slice_to_vec(&[]);
        let mut data = data;
        let mut i: usize = 0;
        while i < byte_len
            invariant
                i <= byte_len,
                data@.len() == i,
                forall|j: int| 0 <= j < i ==> data@[j] == 0u8,
            decreases byte_len - i,
        {
            data.push(0);
            i = i + 1;
        }
        let r = MemoryInstance { data, max_pages };
        proof {
            let ghost page = LINEAR_MEMORY_PAGE_SIZE as int;
            let ghost ip = initial as int;
            let ghost mp = r.spec_max_pages() as int;
            assert(r.spec_data().len() == ip * page);
            assert((ip * page) % page == 0 && (ip * page) / page == ip) by (nonlinear_arith)
                requires
                    page > 0,
                    ip >= 0,
            ;
            assert(ip <= mp);
            assert(ip * page <= mp * page) by (nonlinear_arith)
                requires
                    ip <= mp,
                    page > 0,
            ;
        }
        Ok(r)
    }

    /// The current size in bytes.
    pub fn size(&self) -> (r: usize)
        ensures
            r == self.spec_data().len(),
    {
        self.data.len()
    }

    /// The current size in pages.
    pub fn pages(&self) -> (r: usize)
        requires
            self.wf(),
        ensures
            r == self.spec_pages(),
    {
        self.data.len() / (LINEAR_MEMORY_PAGE_SIZE as usize)
    }

    /// Read `len` bytes at `offset`; reading past the current size is an
    /// out-of-bounds access.
    pub fn get(&self, offset: u32, len: usize) -> (r: Result<Vec<u8>, Error>)
        ensures
            match r {
                Ok(bytes) => {
                    &&& offset + len <= self.spec_data().len()
                    &&& bytes@ == self.spec_data().subrange(
                        offset as int,
                        offset as int + len as int,
                    )
                },
                Err(e) => e == Error::MemoryOutOfBounds && offset + len > self.spec_data().len(),
            },
    {
        if (offset as usize) > self.data.len() || len > self.data.len() - (offset as usize) {
            return Err(Error::MemoryOutOfBounds);
        }
        let dlen = self.data.len();
        let mut out: Vec<u8> = Vec::new();
        let mut i: usize = 0;
        while i < len
            invariant
                i <= len,
                dlen == self.data@.len(),
                offset + len <= self.data@.len(),
                out@ =~= self.data@.subrange(offset as int, offset as int + i as int),
            decreases len - i,
        {
            out.push(self.data[(offset as usize) + i]);
            i = i + 1;
        }
        Ok(out)
    }

    /// Write `bytes` at `offset`; writing past the current size is an
    /// out-of-bounds access.
    pub fn set(&mut self, offset: u32, bytes: &Vec<u8>) -> (r: Result<(), Error>)
        ensures
            final(self).spec_max_pages() == old(self).spec_max_pages(),
            match r {
                Ok(()) => {
                    &&& offset + bytes@.len() <= old(self).spec_data().len()
                    &&& final(self).spec_data().len() == old(self).spec_data().len()
                    &&& (forall|i: int|
                        0 <= i < old(self).spec_data().len() ==> final(self).spec_data()[i] == (
                        if offset <= i < offset + bytes@.len() {
                            bytes@[i - offset]
                        } else {
                            old(self).spec_data()[i]
                        }))
                },
                Err(e) => {
                    &&& e == Error::MemoryOutOfBounds
                    &&& offset + bytes@.len() > old(self).spec_data().len()
                    &&& final(self).spec_data() == old(self).spec_data()
                },
            },
    {
        let len = bytes.len();
        if (offset as usize) > self.data.len() || len > self.data.len() - (offset as usize) {
            return Err(Error::MemoryOutOfBounds);
        }
        let dlen = self.data.len();
        let mut i: usize = 0;
        while i < len
            invariant
                i <= len,
                len == bytes@.len(),
                dlen == self.data@.len(),
                self.max_pages == old(self).spec_max_pages(),
                offset + len <= self.data@.len(),
                self.data@.len() == old(self).spec_data().len(),
                forall|j: int|
                    0 <= j < self.data@.len() ==> self.data@[j] == (if offset <= j < offset + i {
                        bytes@[j - offset]
                    } else {
                        old(self).spec_data()[j]
                    }),
            decreases len - i,
        {
            self.data.set((offset as usize) + i, bytes[i]);
            i = i + 1;
        }
        Ok(())
    }

    /// Grow the memory by `pages` zeroed pages: the old page count on
    /// success, or a failure when the maximum would be exceeded.
    pub fn grow(&mut self, pages: u32) -> (r: Result<u32, Error>)
        requires
            old(self).wf(),
        ensures
            final(self).wf(),
            final(self).spec_max_pages() == old(self).spec_max_pages(),
            match r {
                Ok(old_pages) => {
                    &&& old_pages == old(self).spec_pages()
                    &&& old(self).spec_pages() + pages <= old(self).spec_max_pages()
                    &&& final(self).spec_pages() == old(self).spec_pages() + pages
                    &&& final(self).spec_data() =~= old(self).spec_data() + Seq::new(
                        (pages * (LINEAR_MEMORY_PAGE_SIZE as int)) as nat,
                        |i: int| 0u8,
                    )
                },
                Err(e) => {
                    &&& e == Error::MemoryGrowLimit
                    &&& old(self).spec_pages() + pages > old(self).spec_max_pages()
                    &&& final(self).spec_data() == old(self).spec_data()
                },
            },
    {
        let old_pages = self.pages();
        proof {
            let ghost dl = old(self).spec_data().len() as int;
            let ghost op = old(self).spec_pages();
            let ghost page = LINEAR_MEMORY_PAGE_SIZE as int;
            assert(op * page == dl) by (nonlinear_arith)
                requires
                    dl % page == 0,
                    op == dl / page,
                    page > 0,
            ;
        }
        if pages as usize > (self.max_pages as usize) - old_pages {
            return Err(Error::MemoryGrowLimit);
        }
        proof {
            assert((pages as int) * (LINEAR_MEMORY_PAGE_SIZE as int) <= 65535 * 65536)
                by (nonlinear_arith)
                requires
                    pages <= 65535,
            ;
        }
        let add_bytes: usize = (pages as usize) * (LINEAR_MEMORY_PAGE_SIZE as usize);
        let mut i: usize = 0;
        while i < add_bytes
            invariant
                i <= add_bytes,
                self.data@.len() == old(self).spec_data().len() + i,
                self.max_pages == old(self).spec_max_pages(),
                forall|j: int|
                    0 <= j < self.data@.len() ==> self.data@[j] == (if j < old(
                        self,
                    ).spec_data().len() {
                        old(self).spec_data()[j]
                    } else {
                        0u8
                    }),
            decreases add_bytes - i,
        {
            self.data.push(0);
            i = i + 1;
        }
        proof {
            let ghost page = LINEAR_MEMORY_PAGE_SIZE as int;
            let ghost op = old(self).spec_pages();
            let ghost np = op + pages;
            let ghost mp = self.max_pages as int;
            let ghost nl = self.data@.len() as int;
            assert(np * page == op * page + pages * page) by (nonlinear_arith)
                requires
                    np == op + pages,
            ;
            assert(nl == np * page);
            assert(nl % page == 0 && nl / page == np) by (nonlinear_arith)
                requires
                    nl == np * page,
                    page > 0,
                    np >= 0,
            ;
            assert(np * page <= mp * page) by (nonlinear_arith)
                requires
                    np <= mp,
                    page > 0,
            ;
        }
        Ok(old_pages as u32)
    }
}

} // verus!

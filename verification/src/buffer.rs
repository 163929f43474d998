//! Capacity-checked output buffers.
//!
//! A worker batches output-file lines in a fixed-capacity byte buffer and
//! flushes it to disk when it comes within a safety margin of capacity, and
//! once more at the end of its loop. The buffer itself never touches the
//! file system: a flush hands the pending bytes to the caller, and the buffer
//! is cleared only when the caller reports that the write succeeded, so
//! content survives a failed write and is retried on the next flush.

use vstd::prelude::*;

verus! {

/// Total capacity of a fixed buffer, in elements.
pub const FIXED_BUF_SIZE: usize = 2048;

/// Safety margin: a worker flushes once fewer than this many free elements
/// remain, so the next appended line cannot overflow the buffer.
pub const FLUSH_MARGIN: usize = 200;

/// A fixed-capacity byte buffer: `buffer` always holds `cap` elements, of
/// which the first `len` are the current content.
#[derive(Clone, Debug)]
pub struct U8FixedBuffer {
    pub buffer: Vec<u8>,
    pub len: usize,
    pub cap: usize,
}

/// A fixed-capacity buffer of UTF-16 code units, the `u16` twin of
/// [`U8FixedBuffer`].
#[derive(Clone, Debug)]
pub struct U16FixedBuffer {
    pub buffer: Vec<u16>,
    pub len: usize,
    pub cap: usize,
}

/// The storage of buffer `b` after its content has been zeroed out:
/// the first `len` cells are zero, the rest keep their old values.
pub open spec fn spec_zeroed_storage(b: U8FixedBuffer) -> Seq<u8> {
    Seq::new(b.buffer@.len(), |i: int| if i < b.len { 0u8 } else { b.buffer@[i] })
}

impl U8FixedBuffer {
    /// Well-formed: the storage really has `cap` elements and the content
    /// fits inside it.
    pub open spec fn wf(self) -> bool {
        &&& self.buffer.len() == self.cap
        &&& self.len <= self.cap
    }

    /// The current content: the first `len` stored bytes.
    pub open spec fn contents(self) -> Seq<u8> {
        self.buffer@.take(self.len as int)
    }

    /// A fresh buffer: full capacity, zeroed storage, no content.
    pub fn new() -> (r: U8FixedBuffer)
        ensures
            r.wf(),
            r.cap == FIXED_BUF_SIZE,
            r.len == 0,
            r.contents() == Seq::<u8>::empty(),
            r.buffer@ == Seq::new(FIXED_BUF_SIZE as nat, |i: int| 0u8),
    {
        let mut v: Vec<u8> = Vec::new();
        let mut i: usize = 0;
        while i < FIXED_BUF_SIZE
            invariant
                i <= FIXED_BUF_SIZE,
                v@ =~= Seq::new(i as nat, |j: int| 0u8),
            decreases FIXED_BUF_SIZE - i,
        {
            v.push(0u8);
            i = i + 1;
        }
        let r = U8FixedBuffer { buffer: v, len: 0, cap: FIXED_BUF_SIZE };
        proof {
            assert(r.buffer@ =~= Seq::new(FIXED_BUF_SIZE as nat, |i: int| 0u8));
            assert(r.contents() =~= Seq::<u8>::empty());
        }
        r
    }

    /// Append the characters of `slice`, truncated to bytes, to the content.
    /// When the appended text would exceed capacity nothing changes and 0 is
    /// returned; otherwise the new content length is returned.
    pub fn push_str(&mut self, slice: &str) -> (r: usize)
        requires
            old(self).wf(),
        ensures
            final(self).wf(),
            final(self).cap == old(self).cap,
            old(self).len + slice@.len() > old(self).cap ==> r == 0 && *final(self) == *old(
                self,
            ),
            old(self).len + slice@.len() <= old(self).cap ==> {
                &&& final(self).len == old(self).len + slice@.len()
                &&& r == final(self).len
                &&& final(self).contents() == old(self).contents() + slice@.map_values(
                    |c: char| c as u8,
                )
                &&& forall|k: int|
                    final(self).len <= k < final(self).cap ==> final(self).buffer@[k] == old(
                        self,
                    ).buffer@[k]
            },
    {
        let m = slice.unicode_len();
        if m > self.cap - self.len {
            return 0;
        }
        let ghost orig = *self;
        let mut pos: usize = self.len;
        let mut j: usize = 0;
        while j < m
            invariant
                j <= m,
                m == slice@.len(),
                pos == orig.len + j,
                orig.len + m <= orig.cap,
                self.len == orig.len,
                self.cap == orig.cap,
                self.buffer.len() == orig.buffer.len(),
                orig.wf(),
                forall|k: int| 0 <= k < orig.len ==> self.buffer@[k] == orig.buffer@[k],
                forall|k: int|
                    orig.len <= k < pos ==> self.buffer@[k] == (slice@[k - orig.len] as u8),
                forall|k: int| pos <= k < orig.cap ==> self.buffer@[k] == orig.buffer@[k],
            decreases m - j,
        {
            let c = slice.get_char(j);
            self.buffer[pos] = c as u8;
            pos = pos + 1;
            j = j + 1;
        }
        self.len = pos;
        proof {
            assert(self.contents() =~= orig.contents() + slice@.map_values(|c: char| c as u8));
        }
        pos
    }

    /// Append one character, truncated to a byte. When the buffer is full
    /// nothing changes and 0 is returned; otherwise the new content length.
    pub fn push(&mut self, ch: char) -> (r: usize)
        requires
            old(self).wf(),
        ensures
            final(self).wf(),
            final(self).cap == old(self).cap,
            old(self).len + 1 > old(self).cap ==> r == 0 && *final(self) == *old(self),
            old(self).len + 1 <= old(self).cap ==> {
                &&& final(self).len == old(self).len + 1
                &&& r == final(self).len
                &&& final(self).contents() == old(self).contents().push(ch as u8)
                &&& forall|k: int|
                    final(self).len <= k < final(self).cap ==> final(self).buffer@[k] == old(
                        self,
                    ).buffer@[k]
            },
    {
        if self.len >= self.cap {
            return 0;
        }
        let ghost orig = *self;
        let pos: usize = self.len;
        self.buffer[pos] = ch as u8;
        self.len = pos + 1;
        proof {
            assert(self.contents() =~= orig.contents().push(ch as u8));
        }
        self.len
    }

    /// Zero the storage cell just past the content. The content length does
    /// not change. The cell must exist, so the buffer may not be full.
    pub fn pop(&mut self)
        requires
            old(self).wf(),
            old(self).len < old(self).cap,
        ensures
            final(self).wf(),
            final(self).len == old(self).len,
            final(self).cap == old(self).cap,
            final(self).buffer@ == old(self).buffer@.update(old(self).len as int, 0u8),
            final(self).contents() == old(self).contents(),
    {
        let pos: usize = self.len;
        self.buffer[pos] = 0u8;
        proof {
            assert(self.contents() =~= old(self).contents());
        }
    }

    /// Empty the buffer: zero the content bytes and reset the length.
    pub fn clear(&mut self)
        requires
            old(self).wf(),
        ensures
            final(self).wf(),
            final(self).len == 0,
            final(self).cap == old(self).cap,
            final(self).buffer@ == spec_zeroed_storage(*old(self)),
            final(self).contents() == Seq::<u8>::empty(),
    {
        let ghost orig = *self;
        let mut i: usize = 0;
        while i < self.len
            invariant
                i <= orig.len,
                orig.wf(),
                self.len == orig.len,
                self.cap == orig.cap,
                self.buffer.len() == orig.buffer.len(),
                forall|k: int| 0 <= k < i ==> self.buffer@[k] == 0u8,
                forall|k: int| i <= k < orig.cap ==> self.buffer@[k] == orig.buffer@[k],
            decreases orig.len - i,
        {
            self.buffer[i] = 0u8;
            i = i + 1;
        }
        self.len = 0;
        proof {
            assert(self.buffer@ =~= spec_zeroed_storage(orig));
            assert(self.contents() =~= Seq::<u8>::empty());
        }
    }

    /// Whether the buffer is within the safety margin of capacity and must
    /// be flushed before the next line is appended.
    pub fn flush_needed(&self) -> (r: bool)
        requires
            self.wf(),
            self.cap >= FLUSH_MARGIN,
        ensures
            r <==> self.len + FLUSH_MARGIN >= self.cap,
    {
        self.len >= self.cap - FLUSH_MARGIN
    }

    /// Begin a flush: the bytes that must be appended to the output file,
    /// or nothing when the buffer is empty and the flush is a no-op.
    pub fn flush_payload(&self) -> (r: Option<Vec<u8>>)
        requires
            self.wf(),
        ensures
            spec_flush_writes(self.contents()).len() == 0 ==> r is None,
            spec_flush_writes(self.contents()).len() > 0 ==> r is Some && r->0@ == spec_flush_writes(
                self.contents(),
            ),
    {
        if self.len == 0 {
            return None;
        }
        let mut out: Vec<u8> = Vec::new();
        let mut i: usize = 0;
        while i < self.len
            invariant
                i <= self.len,
                self.wf(),
                out@ =~= self.buffer@.take(self.len as int).take(i as int),
            decreases self.len - i,
        {
            let b = self.buffer[i];
            out.push(b);
            i = i + 1;
        }
        proof {
            assert(out@ =~= self.contents());
        }
        Some(out)
    }

    /// Finish a flush: a successful write empties the buffer, a failed one
    /// leaves the content in place so it is retried on the next flush.
    pub fn flush_complete(&mut self, wrote_ok: bool)
        requires
            old(self).wf(),
        ensures
            final(self).wf(),
            final(self).cap == old(self).cap,
            final(self).contents() == spec_flush_after(old(self).contents(), wrote_ok),
            !wrote_ok ==> *final(self) == *old(self),
    {
        if wrote_ok {
            self.clear();
        }
    }
}

/// What one flush of a buffer with content `c` appends to the output file:
/// nothing when the buffer is empty, all of `c` otherwise.
pub open spec fn spec_flush_writes(c: Seq<u8>) -> Seq<u8> {
    if c.len() == 0 {
        Seq::<u8>::empty()
    } else {
        c
    }
}

/// The buffer content after one flush of content `c`: empty after a
/// successful write, unchanged after a failed one.
pub open spec fn spec_flush_after(c: Seq<u8>, wrote_ok: bool) -> Seq<u8> {
    if wrote_ok {
        Seq::<u8>::empty()
    } else {
        c
    }
}

/// Flushing is idempotent: an empty buffer flushes nothing and is left as it
/// was, and after any successful flush an immediate second flush writes
/// nothing, whether or not the first write succeeded for an empty buffer.
pub proof fn lemma_flush_idempotent(c: Seq<u8>)
    ensures
        c.len() == 0 ==> spec_flush_writes(c) == Seq::<u8>::empty() && spec_flush_after(c, true)
            == c,
        spec_flush_writes(spec_flush_after(c, true)) == Seq::<u8>::empty(),
{
    if c.len() == 0 {
        assert(spec_flush_after(c, true) =~= c);
    }
}

impl U16FixedBuffer {
    /// Well-formed: the storage really has `cap` elements and the content
    /// fits inside it.
    pub open spec fn wf(self) -> bool {
        &&& self.buffer.len() == self.cap
        &&& self.len <= self.cap
    }

    /// The current content: the first `len` stored code units.
    pub open spec fn contents(self) -> Seq<u16> {
        self.buffer@.take(self.len as int)
    }

    /// A fresh buffer: full capacity, zeroed storage, no content.
    pub fn new() -> (r: U16FixedBuffer)
        ensures
            r.wf(),
            r.cap == FIXED_BUF_SIZE,
            r.len == 0,
            r.contents() == Seq::<u16>::empty(),
            r.buffer@ == Seq::new(FIXED_BUF_SIZE as nat, |i: int| 0u16),
    {
        let mut v: Vec<u16> = Vec::new();
        let mut i: usize = 0;
        while i < FIXED_BUF_SIZE
            invariant
                i <= FIXED_BUF_SIZE,
                v@ =~= Seq::new(i as nat, |j: int| 0u16),
            decreases FIXED_BUF_SIZE - i,
        {
            v.push(0u16);
            i = i + 1;
        }
        let r = U16FixedBuffer { buffer: v, len: 0, cap: FIXED_BUF_SIZE };
        proof {
            assert(r.buffer@ =~= Seq::new(FIXED_BUF_SIZE as nat, |i: int| 0u16));
            assert(r.contents() =~= Seq::<u16>::empty());
        }
        r
    }

    /// Append the characters of `slice`, truncated to code units, to the
    /// content. When the appended text would exceed capacity nothing changes
    /// and 0 is returned; otherwise the new content length is returned.
    pub fn push_str(&mut self, slice: &str) -> (r: usize)
        requires
            old(self).wf(),
        ensures
            final(self).wf(),
            final(self).cap == old(self).cap,
            old(self).len + slice@.len() > old(self).cap ==> r == 0 && *final(self) == *old(
                self,
            ),
            old(self).len + slice@.len() <= old(self).cap ==> {
                &&& final(self).len == old(self).len + slice@.len()
                &&& r == final(self).len
                &&& final(self).contents() == old(self).contents() + slice@.map_values(
                    |c: char| c as u16,
                )
                &&& forall|k: int|
                    final(self).len <= k < final(self).cap ==> final(self).buffer@[k] == old(
                        self,
                    ).buffer@[k]
            },
    {
        let m = slice.unicode_len();
        if m > self.cap - self.len {
            return 0;
        }
        let ghost orig = *self;
        let mut pos: usize = self.len;
        let mut j: usize = 0;
        while j < m
            invariant
                j <= m,
                m == slice@.len(),
                pos == orig.len + j,
                orig.len + m <= orig.cap,
                self.len == orig.len,
                self.cap == orig.cap,
                self.buffer.len() == orig.buffer.len(),
                orig.wf(),
                forall|k: int| 0 <= k < orig.len ==> self.buffer@[k] == orig.buffer@[k],
                forall|k: int|
                    orig.len <= k < pos ==> self.buffer@[k] == (slice@[k - orig.len] as u16),
                forall|k: int| pos <= k < orig.cap ==> self.buffer@[k] == orig.buffer@[k],
            decreases m - j,
        {
            let c = slice.get_char(j);
            self.buffer[pos] = c as u16;
            pos = pos + 1;
            j = j + 1;
        }
        self.len = pos;
        proof {
            assert(self.contents() =~= orig.contents() + slice@.map_values(|c: char| c as u16));
        }
        pos
    }

    /// Append one character, truncated to a code unit. When the buffer is
    /// full nothing changes and 0 is returned; otherwise the new content
    /// length.
    pub fn push(&mut self, ch: char) -> (r: usize)
        requires
            old(self).wf(),
        ensures
            final(self).wf(),
            final(self).cap == old(self).cap,
            old(self).len + 1 > old(self).cap ==> r == 0 && *final(self) == *old(self),
            old(self).len + 1 <= old(self).cap ==> {
                &&& final(self).len == old(self).len + 1
                &&& r == final(self).len
                &&& final(self).contents() == old(self).contents().push(ch as u16)
                &&& forall|k: int|
                    final(self).len <= k < final(self).cap ==> final(self).buffer@[k] == old(
                        self,
                    ).buffer@[k]
            },
    {
        if self.len >= self.cap {
            return 0;
        }
        let ghost orig = *self;
        let pos: usize = self.len;
        self.buffer[pos] = ch as u16;
        self.len = pos + 1;
        proof {
            assert(self.contents() =~= orig.contents().push(ch as u16));
        }
        self.len
    }

    /// Zero the storage cell just past the content. The content length does
    /// not change. The cell must exist, so the buffer may not be full.
    pub fn pop(&mut self)
        requires
            old(self).wf(),
            old(self).len < old(self).cap,
        ensures
            final(self).wf(),
            final(self).len == old(self).len,
            final(self).cap == old(self).cap,
            final(self).buffer@ == old(self).buffer@.update(old(self).len as int, 0u16),
            final(self).contents() == old(self).contents(),
    {
        let pos: usize = self.len;
        self.buffer[pos] = 0u16;
        proof {
            assert(self.contents() =~= old(self).contents());
        }
    }

    /// Empty the buffer: zero the content cells and reset the length.
    pub fn clear(&mut self)
        requires
            old(self).wf(),
        ensures
            final(self).wf(),
            final(self).len == 0,
            final(self).cap == old(self).cap,
            final(self).buffer@ == Seq::new(
                old(self).buffer@.len(),
                |i: int| if i < old(self).len { 0u16 } else { old(self).buffer@[i] },
            ),
            final(self).contents() == Seq::<u16>::empty(),
    {
        let ghost orig = *self;
        let mut i: usize = 0;
        while i < self.len
            invariant
                i <= orig.len,
                orig.wf(),
                self.len == orig.len,
                self.cap == orig.cap,
                self.buffer.len() == orig.buffer.len(),
                forall|k: int| 0 <= k < i ==> self.buffer@[k] == 0u16,
                forall|k: int| i <= k < orig.cap ==> self.buffer@[k] == orig.buffer@[k],
            decreases orig.len - i,
        {
            self.buffer[i] = 0u16;
            i = i + 1;
        }
        self.len = 0;
        proof {
            assert(self.buffer@ =~= Seq::new(
                orig.buffer@.len(),
                |i: int| if i < orig.len { 0u16 } else { orig.buffer@[i] },
            ));
            assert(self.contents() =~= Seq::<u16>::empty());
        }
    }
}

} // verus!

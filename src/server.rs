//! The byte buffer between a connection and the handler, and the pieces of the
//! server that decide rather than wait.
use vstd::prelude::*;
use vstd::std_specs::convert::FromSpec;

verus! {

/// A buffer's bytes and its two cursors.
pub struct BufModel {
    pub bytes: Seq<u8>,
    pub read: nat,
    pub write: nat,
}

impl BufModel {
    /// Cursors in order and inside the store.
    pub open spec fn wf(self) -> bool {
        self.read <= self.write <= self.bytes.len()
    }

    pub open spec fn capacity(self) -> nat {
        self.bytes.len()
    }

    /// The bytes received and not yet consumed.
    pub open spec fn unread(self) -> Seq<u8> {
        self.bytes.subrange(self.read as int, self.write as int)
    }
}

/// A fixed-capacity byte store with a read and a write cursor: bytes come in at
/// the write cursor and are consumed from the read cursor.
pub struct Buf {
    buf: Vec<u8>,
    read: usize,
    write: usize,
}

impl View for Buf {
    type V = BufModel;

    closed spec fn view(&self) -> BufModel {
        BufModel { bytes: self.buf@, read: self.read as nat, write: self.write as nat }
    }
}

impl From<Vec<u8>> for Buf {
    /// A buffer holding `data`, all of it unread.
    fn from(data: Vec<u8>) -> (r: Self) {
        let write = data.len();
        Buf { buf: data, read: 0, write }
    }
}

impl vstd::std_specs::convert::FromSpecImpl<Vec<u8>> for Buf {
    open spec fn obeys_from_spec() -> bool {
        true
    }

    closed spec fn from_spec(data: Vec<u8>) -> Buf {
        Buf { buf: data, read: 0, write: data.len() }
    }
}

impl Buf {
    /// `Buf::from(data)` holds exactly `data`, unread.
    pub broadcast proof fn lemma_from_view(data: Vec<u8>)
        ensures
            (#[trigger] Buf::from_spec(data))@ == (BufModel { bytes: data@, read: 0, write: data@.len() }),
    {
    }

    /// An empty buffer of `size` zero bytes.
    pub fn new(size: usize) -> (r: Self)
        ensures
            r@ == (BufModel { bytes: Seq::new(size as nat, |i: int| 0u8), read: 0, write: 0 }),
            r@.wf(),
    {
        let mut buf: Vec<u8> = Vec::new();
        let mut k: usize = 0;
        while k < size
            invariant
                k <= size,
                buf@ =~= Seq::new(k as nat, |i: int| 0u8),
            decreases size - k,
        {
            buf.push(0u8);
            k = k + 1;
        }
        Buf { buf, read: 0, write: 0 }
    }

    /// Bytes received and not yet consumed.
    pub fn readable(&self) -> (r: usize)
        requires
            self@.wf(),
        ensures
            r + self@.read == self@.write,
    {
        self.write - self.read
    }

    /// Room left after the write cursor.
    pub fn writeable(&self) -> (r: usize)
        requires
            self@.wf(),
        ensures
            r == self@.capacity() - self@.write,
    {
        self.buf.len() - self.write
    }

    /// Copies as much of `src` as fits after the write cursor and moves the
    /// cursor past it; returns how many bytes were taken.
    pub fn write_from_slice(&mut self, src: &[u8]) -> (r: usize)
        requires
            old(self)@.wf(),
        ensures
            final(self)@.wf(),
            r == if src@.len() <= old(self)@.capacity() - old(self)@.write {
                src@.len()
            } else {
                (old(self)@.capacity() - old(self)@.write) as nat
            },
            final(self)@ == (BufModel {
                bytes: old(self)@.bytes.subrange(0, old(self)@.write as int) + src@.subrange(0, r as int)
                    + old(self)@.bytes.subrange(old(self)@.write + r, old(self)@.capacity() as int),
                read: old(self)@.read,
                write: (old(self)@.write + r) as nat,
            }),
    {
        let room = self.buf.len() - self.write;
        assert(self.buf@.len() <= usize::MAX);
        let count: usize = if src.len() <= room { src.len() } else { room };
        let w = self.write;
        let mut k: usize = 0;
        while k < count
            invariant
                k <= count,
                count <= src@.len(),
                w == old(self).write,
                w + count <= old(self).buf@.len(),
                self.buf@.len() == old(self).buf@.len(),
                old(self).buf@.len() <= usize::MAX,
                self.read == old(self).read,
                self.write == old(self).write,
                self.buf@ =~= old(self).buf@.subrange(0, w as int) + src@.subrange(0, k as int)
                    + old(self).buf@.subrange(w + k, old(self).buf@.len() as int),
            decreases count - k,
        {
            self.buf.set(w + k, src[k]);
            k = k + 1;
        }
        self.write = w + count;
        count
    }

    /// The next `len` unread bytes, or all of them where fewer remain.
    pub fn get(&self, len: usize) -> (r: &[u8])
        requires
            self@.wf(),
        ensures
            r@ == self@.bytes.subrange(
                self@.read as int,
                if len <= self@.write - self@.read { self@.read + len } else { self@.write as int },
            ),
    {
        let j: usize = if len <= self.write - self.read { self.read + len } else { self.write };
        vstd::slice::slice_subrange(self.buf.as_slice(), self.read, j)
    }

    /// Consumes `len` bytes, or all unread ones where fewer remain.
    pub fn skip(&mut self, len: usize)
        requires
            old(self)@.wf(),
        ensures
            final(self)@.wf(),
            final(self)@ == (BufModel {
                read: if len <= old(self)@.write - old(self)@.read {
                    (old(self)@.read + len) as nat
                } else {
                    old(self)@.write
                },
                ..old(self)@
            }),
    {
        if len <= self.write - self.read {
            self.read = self.read + len;
        } else {
            self.read = self.write;
        }
    }

    /// Moves the unread bytes to the start of the store and the cursors with
    /// them, making room after them; returns how many bytes were kept.
    pub fn flip(&mut self) -> (r: usize)
        requires
            old(self)@.wf(),
        ensures
            final(self)@.wf(),
            r == old(self)@.write - old(self)@.read,
            final(self)@ == (BufModel {
                bytes: old(self)@.unread() + old(self)@.bytes.subrange(r as int, old(self)@.capacity() as int),
                read: 0,
                write: r as nat,
            }),
            final(self)@.unread() == old(self)@.unread(),
            final(self)@.capacity() - final(self)@.write == old(self)@.capacity() - old(self)@.write + old(self)@.read,
    {
        let count = self.write - self.read;
        let rd = self.read;
        let mut k: usize = 0;
        while k < count
            invariant
                k <= count,
                rd == old(self).read,
                rd + count == old(self).write,
                old(self).write <= old(self).buf@.len(),
                self.buf@.len() == old(self).buf@.len(),
                self.read == old(self).read,
                self.write == old(self).write,
                forall|m: int| 0 <= m < k ==> self.buf@[m] == old(self).buf@[rd + m],
                forall|m: int| k <= m < self.buf@.len() ==> self.buf@[m] == old(self).buf@[m],
            decreases count - k,
        {
            let b = self.buf[rd + k];
            self.buf.set(k, b);
            k = k + 1;
        }
        self.write = count;
        self.read = 0;
        assert(self.buf@ =~= old(self)@.unread() + old(self).buf@.subrange(count as int, old(self).buf@.len() as int));
        assert(self@.unread() =~= old(self)@.unread());
        count
    }

    /// Clears both cursors.
    pub fn reset(&mut self)
        ensures
            final(self)@ == (BufModel { read: 0, write: 0, ..old(self)@ }),
            final(self)@.wf(),
    {
        self.read = 0;
        self.write = 0;
    }
}

/// An item of the merged stream, tagged with the stream it came from.
pub enum CombinedStreamOutput<T1, T2> {
    First(T1),
    Second(T2),
}

/// Two streams merged into one. Each round polls the first stream, then the
/// second; the merged stream ends once both have ended.
pub struct CombinedStream<S1, S2> {
    s1: S1,
    finished1: bool,
    s2: S2,
    finished2: bool,
}

impl<S1, S2> CombinedStream<S1, S2> {
    pub closed spec fn first_finished(&self) -> bool {
        self.finished1
    }

    pub closed spec fn second_finished(&self) -> bool {
        self.finished2
    }

    pub closed spec fn first(&self) -> S1 {
        self.s1
    }

    pub closed spec fn second(&self) -> S2 {
        self.s2
    }

    pub fn new(s1: S1, s2: S2) -> (r: Self)
        ensures
            r.first() == s1,
            r.second() == s2,
            !r.first_finished(),
            !r.second_finished(),
    {
        CombinedStream { s1, finished1: false, s2, finished2: false }
    }

    /// The first stream, to be polled; `None` once it has ended.
    pub fn first_mut(&mut self) -> (r: Option<&mut S1>)
        ensures
            r.is_some() == !old(self).first_finished(),
            match r {
                Some(s) => *s == old(self).first() && final(self).first() == *final(s),
                None => final(self).first() == old(self).first(),
            },
            final(self).second() == old(self).second(),
            final(self).first_finished() == old(self).first_finished(),
            final(self).second_finished() == old(self).second_finished(),
    {
        if self.finished1 {
            None
        } else {
            Some(&mut self.s1)
        }
    }

    /// The second stream, to be polled; `None` once it has ended.
    pub fn second_mut(&mut self) -> (r: Option<&mut S2>)
        ensures
            r.is_some() == !old(self).second_finished(),
            match r {
                Some(s) => *s == old(self).second() && final(self).second() == *final(s),
                None => final(self).second() == old(self).second(),
            },
            final(self).first() == old(self).first(),
            final(self).first_finished() == old(self).first_finished(),
            final(self).second_finished() == old(self).second_finished(),
    {
        if self.finished2 {
            None
        } else {
            Some(&mut self.s2)
        }
    }

    /// Takes what polling the first stream gave: `None` while it is pending,
    /// `Some(None)` once it has ended, `Some(Some(v))` for an item. Returns the
    /// item to hand on, tagged; records the end of the stream.
    pub fn on_first<T1, T2>(&mut self, polled: Option<Option<T1>>) -> (r: Option<CombinedStreamOutput<T1, T2>>)
        ensures
            r == match polled {
                Some(Some(v)) => Some(CombinedStreamOutput::<T1, T2>::First(v)),
                _ => None,
            },
            final(self).first_finished() == (old(self).first_finished() || polled == Some(None::<T1>)),
            final(self).second_finished() == old(self).second_finished(),
            final(self).first() == old(self).first(),
            final(self).second() == old(self).second(),
    {
        match polled {
            Some(Some(v)) => Some(CombinedStreamOutput::First(v)),
            Some(None) => {
                self.finished1 = true;
                None
            },
            None => None,
        }
    }

    /// As `on_first`, for the second stream.
    pub fn on_second<T1, T2>(&mut self, polled: Option<Option<T2>>) -> (r: Option<CombinedStreamOutput<T1, T2>>)
        ensures
            r == match polled {
                Some(Some(v)) => Some(CombinedStreamOutput::<T1, T2>::Second(v)),
                _ => None,
            },
            final(self).second_finished() == (old(self).second_finished() || polled == Some(None::<T2>)),
            final(self).first_finished() == old(self).first_finished(),
            final(self).first() == old(self).first(),
            final(self).second() == old(self).second(),
    {
        match polled {
            Some(Some(v)) => Some(CombinedStreamOutput::Second(v)),
            Some(None) => {
                self.finished2 = true;
                None
            },
            None => None,
        }
    }

    /// After a round that handed on no item: whether the merged stream has
    /// ended (both streams have), rather than waiting.
    pub fn is_finished(&self) -> (r: bool)
        ensures
            r == (self.first_finished() && self.second_finished()),
    {
        self.finished1 && self.finished2
    }
}

} // verus!

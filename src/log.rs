use vstd::prelude::*;
use vstd::string::StringSliceAdditionalSpecFns;
use crate::collection::deque::keep_last;

verus! {

/// The size of a `LogBuf` in bytes.
pub const LOG_BUF_LEN: usize = 32;

/// A fixed buffer that log text is written into. When a chunk does not fit,
/// the oldest bytes make room for it; reading the data out starts the next
/// round of writes at the beginning.
pub struct LogBuf {
    buf: [u8; LOG_BUF_LEN],
    pos: usize,
}

impl LogBuf {
    /// All bytes of the buffer.
    pub closed spec fn data(&self) -> Seq<u8> {
        self.buf@
    }

    /// How many bytes of the current round have been written.
    pub closed spec fn filled(&self) -> nat {
        self.pos as nat
    }

    pub closed spec fn wf(&self) -> bool {
        self.pos <= LOG_BUF_LEN
    }

    /// A zeroed buffer with nothing written.
    pub fn new() -> (r: Self)
        ensures
            r.wf(),
            r.filled() == 0,
            r.data() == Seq::new(LOG_BUF_LEN as nat, |i: int| 0u8),
    {
        let r = Self { buf: [0; LOG_BUF_LEN], pos: 0 };
        proof { assert(r.data() =~= Seq::new(LOG_BUF_LEN as nat, |i: int| 0u8)); }
        r
    }

    /// The whole buffer; the next write starts over at its beginning.
    pub fn get_data(&mut self) -> (r: &[u8])
        requires
            old(self).wf(),
        ensures
            final(self).wf(),
            r@ == old(self).data(),
            final(self).data() == old(self).data(),
            final(self).filled() == 0,
    {
        self.pos = 0;
        self.buf.as_slice()
    }

    /// Whether the buffer has been filled up.
    pub fn is_ready(&self) -> (r: bool)
        requires
            self.wf(),
        ensures
            r == (self.filled() == LOG_BUF_LEN),
    {
        LOG_BUF_LEN - self.pos == 0
    }

    /// Appends `data` as one chunk. Where it does not fit after what was
    /// written, exactly as many of the oldest written bytes as needed are
    /// dropped so that the whole chunk is kept; a chunk longer than the
    /// buffer keeps its own last `LOG_BUF_LEN` bytes. Bytes past the written
    /// part are left as they were.
    pub fn write_str(&mut self, data: &str) -> (r: Result<(), ()>)
        requires
            old(self).wf(),
        ensures
            final(self).wf(),
            r is Ok,
            final(self).data().take(final(self).filled() as int) == keep_last(
                old(self).data().take(old(self).filled() as int) + data.spec_bytes(),
                LOG_BUF_LEN as nat,
            ),
            final(self).filled() == if old(self).filled() + data.spec_bytes().len() <= LOG_BUF_LEN {
                old(self).filled() + data.spec_bytes().len()
            } else {
                LOG_BUF_LEN as nat
            },
            final(self).data().skip(final(self).filled() as int) == old(self).data().skip(
                final(self).filled() as int,
            ),
    {
        let bytes = data.as_bytes();
        let n = bytes.len();
        let ghost pre = self.buf@;
        let pos = self.pos;
        if n >= LOG_BUF_LEN {
            let start = n - LOG_BUF_LEN;
            let mut i: usize = 0;
            while i < LOG_BUF_LEN
                invariant
                    start + LOG_BUF_LEN == n,
                    n == bytes@.len(),
                    i <= LOG_BUF_LEN,
                    self.pos == pos,
                    pos <= LOG_BUF_LEN,
                    self.buf@.len() == LOG_BUF_LEN,
                    forall|j: int| 0 <= j < i ==> #[trigger] self.buf@[j] == bytes@[start + j],
                decreases LOG_BUF_LEN - i,
            {
                self.buf[i] = bytes[start + i];
                i += 1;
            }
            self.pos = LOG_BUF_LEN;
            proof {
                let w = pre.take(pos as int) + bytes@;
                assert(self.buf@.take(LOG_BUF_LEN as int) =~= keep_last(w, LOG_BUF_LEN as nat));
                assert(self.buf@.skip(LOG_BUF_LEN as int) =~= pre.skip(LOG_BUF_LEN as int));
            }
        } else {
            let keep = if pos + n <= LOG_BUF_LEN { pos } else { LOG_BUF_LEN - n };
            let drop = pos - keep;
            let mut i: usize = 0;
            while i < keep
                invariant
                    keep + drop == pos,
                    pos <= LOG_BUF_LEN,
                    i <= keep,
                    self.pos == pos,
                    self.buf@.len() == LOG_BUF_LEN,
                    pre.len() == LOG_BUF_LEN,
                    forall|j: int|
                        0 <= j < LOG_BUF_LEN ==> #[trigger] self.buf@[j] == if j < i {
                            pre[drop + j]
                        } else {
                            pre[j]
                        },
                decreases keep - i,
            {
                let b = self.buf[drop + i];
                self.buf[i] = b;
                i += 1;
            }
            let mut i: usize = 0;
            while i < n
                invariant
                    keep + drop == pos,
                    keep + n <= LOG_BUF_LEN,
                    n == bytes@.len(),
                    i <= n,
                    self.pos == pos,
                    self.buf@.len() == LOG_BUF_LEN,
                    pre.len() == LOG_BUF_LEN,
                    forall|j: int|
                        0 <= j < LOG_BUF_LEN ==> #[trigger] self.buf@[j] == if j < keep {
                            pre[drop + j]
                        } else if j < keep + i {
                            bytes@[j - keep]
                        } else {
                            pre[j]
                        },
                decreases n - i,
            {
                self.buf[keep + i] = bytes[i];
                i += 1;
            }
            self.pos = keep + n;
            proof {
                let w = pre.take(pos as int) + bytes@;
                let k = keep_last(w, LOG_BUF_LEN as nat);
                assert(self.buf@.take((keep + n) as int) =~= k);
                assert(self.buf@.skip((keep + n) as int) =~= pre.skip((keep + n) as int));
            }
        }
        Ok(())
    }

    /// The buffer always holds `LOG_BUF_LEN` bytes, and a well-formed one
    /// has written at most that many.
    pub proof fn lemma_wf(&self)
        ensures
            self.data().len() == LOG_BUF_LEN,
            self.wf() ==> self.filled() <= LOG_BUF_LEN,
    {
    }
}

} // verus!

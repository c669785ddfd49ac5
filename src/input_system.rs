use vstd::prelude::*;

verus! {

/// True when position `p` of `s` lies at or past the end of the readable text:
/// past the last byte, or on a zero byte (which the buffer takes for its sentinel).
pub open spec fn at_end(s: Seq<u8>, p: int) -> bool {
    p >= s.len() || s[p] == 0
}

/// What one step of the scanning cursor produced.
pub enum Scan {
    /// The next byte of the text.
    Byte(u8),
    /// The end of the text: the cursor stays where it is.
    End,
    /// The next refill would overwrite the start of the lexeme being read.
    Full,
}

/// A scanning window of `2 * half` bytes over a source text. The text is read
/// into the two halves in turn, `half - 1` bytes at a time; the last slot of each
/// half always holds a zero sentinel, and a short read puts one more sentinel
/// right after the bytes it copied.
pub struct DoubleBuffer {
    source: Vec<u8>,
    buffer: Vec<u8>,
    half: usize,
    /// Text offset one past the nominal end of the newest loaded chunk.
    loaded_to: usize,
    /// Slot where the half holding the newest chunk begins (0 or `half`).
    newest: usize,
    /// Slot of the first byte of the current lexeme.
    begin: usize,
    /// Slot of the next byte to scan.
    forward: usize,
    /// Text offset of the first byte of the current lexeme.
    start: usize,
    /// Text offset of the next byte to scan.
    pos: usize,
}

/// Number of text bytes that a read at offset `at` copies into a half.
pub open spec fn chunk_len(len: int, at: int, m: int) -> int {
    if at >= len {
        0
    } else if len - at < m {
        len - at
    } else {
        m
    }
}

impl DoubleBuffer {
    /// The whole text that the buffer presents.
    pub closed spec fn source(&self) -> Seq<u8> {
        self.source@
    }

    /// The size of one half of the window.
    pub closed spec fn half(&self) -> nat {
        self.half as nat
    }

    /// Text offset of the next byte to scan.
    pub closed spec fn pos(&self) -> nat {
        self.pos as nat
    }

    /// Text offset of the first byte of the current lexeme.
    pub closed spec fn start(&self) -> nat {
        self.start as nat
    }

    spec fn older(&self) -> int {
        if self.newest == 0 {
            self.half as int
        } else {
            0
        }
    }

    /// The half starting at slot `base` holds the chunk read at text offset `at`.
    spec fn holds_chunk(&self, base: int, at: int) -> bool {
        let m = self.half - 1;
        let n = chunk_len(self.source@.len() as int, at, m);
        &&& forall|k: int| 0 <= k < n ==> #[trigger] self.buffer@[base + k] == self.source@[at + k]
        &&& n < m ==> self.buffer@[base + n] == 0
    }

    /// Slot `x` stands for text offset `p`: either in the newest half, or in the
    /// older one, whose last slot is the sentinel before the newest chunk.
    spec fn slot_of(&self, x: int, p: int) -> bool {
        let m = self.half - 1;
        ||| (self.loaded_to - m <= p <= self.loaded_to && x == self.newest + (p - (
            self.loaded_to - m)))
        ||| (self.loaded_to >= 2 * m && self.loaded_to - 2 * m <= p <= self.loaded_to - m && x
            == self.older() + (p - (self.loaded_to - 2 * m)))
    }

    pub closed spec fn wf(&self) -> bool {
        let n = self.half as int;
        let m = n - 1;
        &&& n >= 2
        &&& self.source@.len() + 2 * n <= usize::MAX
        &&& self.buffer@.len() == 2 * n
        &&& self.buffer@[n - 1] == 0
        &&& self.buffer@[2 * n - 1] == 0
        &&& (self.newest == 0 || self.newest == n)
        &&& (self.loaded_to == m || self.loaded_to >= 2 * m)
        &&& self.loaded_to <= self.source@.len() + m
        &&& self.holds_chunk(self.newest as int, self.loaded_to - m)
        &&& self.loaded_to >= 2 * m ==> self.holds_chunk(self.older(), self.loaded_to - 2 * m)
        &&& self.start <= self.pos <= self.source@.len()
        &&& self.pos <= self.loaded_to
        &&& self.start + 2 * m >= self.loaded_to
        &&& self.slot_of(self.forward as int, self.pos as int)
        &&& self.slot_of(self.begin as int, self.start as int)
    }

    /// Builds a window of halves of `half` bytes over `source` and reads the
    /// first chunk into the first half.
    pub fn new(source: Vec<u8>, half: usize) -> (r: DoubleBuffer)
        requires
            half >= 2,
            source@.len() + 2 * half <= usize::MAX,
        ensures
            r.wf(),
            r.source() == source@,
            r.half() == half,
            r.pos() == 0,
            r.start() == 0,
    {
        let mut buffer: Vec<u8> = Vec::new();
        let mut i: usize = 0;
        while i < 2 * half
            invariant
                i <= 2 * half,
                half >= 2,
                source@.len() + 2 * half <= usize::MAX,
                buffer@.len() == i,
                forall|k: int| 0 <= k < i ==> buffer@[k] == 0,
            decreases 2 * half - i,
        {
            buffer.push(0);
            i = i + 1;
        }
        let mut b = DoubleBuffer {
            source,
            buffer,
            half,
            loaded_to: 0,
            newest: half,
            begin: 0,
            forward: 0,
            start: 0,
            pos: 0,
        };
        b.load(0);
        b.newest = 0;
        b.loaded_to = half - 1;
        proof {
            assert(b.slot_of(0, 0));
        }
        b
    }

    /// Copies the chunk read at text offset `loaded_to` into the half starting
    /// at `base`, with a sentinel after it when the read comes up short.
    fn load(&mut self, base: usize)
        requires
            old(self).half >= 2,
            old(self).buffer@.len() == 2 * old(self).half,
            old(self).source@.len() + 2 * old(self).half <= usize::MAX,
            old(self).loaded_to <= old(self).source@.len() + old(self).half,
            base == 0 || base == old(self).half,
        ensures
            final(self).source == old(self).source,
            final(self).half == old(self).half,
            final(self).loaded_to == old(self).loaded_to,
            final(self).newest == old(self).newest,
            final(self).begin == old(self).begin,
            final(self).forward == old(self).forward,
            final(self).start == old(self).start,
            final(self).pos == old(self).pos,
            final(self).buffer@.len() == old(self).buffer@.len(),
            forall|k: int|
                0 <= k < 2 * old(self).half && !(base <= k < base + old(self).half - 1)
                    ==> final(self).buffer@[k] == old(self).buffer@[k],
            final(self).holds_chunk(base as int, old(self).loaded_to as int),
    {
        let m = self.half - 1;
        let at = self.loaded_to;
        let len = self.source.len();
        let mut j: usize = 0;
        while j < m && at + j < len
            invariant
                m == self.half - 1,
                at == self.loaded_to,
                len == self.source@.len(),
                self.half >= 2,
                base == 0 || base == self.half,
                at <= len + self.half,
                len + 2 * self.half <= usize::MAX,
                j <= m,
                j <= chunk_len(len as int, at as int, m as int),
                self.buffer@.len() == old(self).buffer@.len(),
                self.buffer@.len() == 2 * self.half,
                self.source == old(self).source,
                self.half == old(self).half,
                self.loaded_to == old(self).loaded_to,
                self.newest == old(self).newest,
                self.begin == old(self).begin,
                self.forward == old(self).forward,
                self.start == old(self).start,
                self.pos == old(self).pos,
                forall|k: int| 0 <= k < j ==> #[trigger] self.buffer@[base + k] == self.source@[at + k],
                forall|k: int|
                    0 <= k < 2 * old(self).half && !(base <= k < base + j)
                        ==> self.buffer@[k] == old(self).buffer@[k],
            decreases m - j,
        {
            let c = self.source[at + j];
            self.buffer.set(base + j, c);
            j = j + 1;
        }
        if j < m {
            self.buffer.set(base + j, 0);
        }
    }

    /// The slot that stands for an offset inside the text holds that offset's byte,
    /// unless it is the sentinel at the end of a half.
    proof fn lemma_slot_byte(&self, x: int, p: int)
        requires
            self.wf(),
            self.slot_of(x, p),
            x != self.half - 1,
            x != 2 * self.half - 1,
        ensures
            0 <= x < 2 * self.half,
            p < self.source@.len() ==> self.buffer@[x] == self.source@[p],
            self.buffer@[x] == 0 ==> at_end(self.source@, p),
    {
        let m = self.half - 1;
        let len = self.source@.len() as int;
        if self.loaded_to - m <= p <= self.loaded_to && x == self.newest + (p - (self.loaded_to
            - m)) {
            let at = self.loaded_to - m;
            let o = p - at;
            if o < chunk_len(len, at, m) {
                assert(self.buffer@[self.newest + o] == self.source@[at + o]);
            }
        } else {
            let at = self.loaded_to - 2 * m;
            let o = p - at;
            if o < chunk_len(len, at, m) {
                assert(self.buffer@[self.older() + o] == self.source@[at + o]);
            }
        }
    }

    /// Reads the next chunk into the older half, which becomes the newest.
    fn refill(&mut self)
        requires
            old(self).wf(),
            old(self).pos == old(self).loaded_to,
            old(self).forward == old(self).newest + old(self).half - 1,
            old(self).start + old(self).half - 1 >= old(self).loaded_to,
        ensures
            final(self).wf(),
            final(self).source == old(self).source,
            final(self).half == old(self).half,
            final(self).pos == old(self).pos,
            final(self).start == old(self).start,
            final(self).forward == old(self).forward,
            final(self).newest == old(self).older(),
            final(self).loaded_to == old(self).loaded_to + old(self).half - 1,
    {
        let n = self.half;
        let next_base: usize = if self.newest == 0 {
            n
        } else {
            0
        };
        if self.begin == next_base + (n - 1) {
            self.begin = self.newest;
        }
        let ghost mid = *self;
        self.load(next_base);
        proof {
            let m = n - 1;
            assert forall|k: int|
                0 <= k < chunk_len(self.source@.len() as int, mid.loaded_to - m, m as int) implies
                #[trigger] self.buffer@[mid.newest + k] == self.source@[mid.loaded_to - m + k] by {
                assert(mid.buffer@[mid.newest + k] == mid.source@[mid.loaded_to - m + k]);
            }
        }
        self.newest = next_base;
        self.loaded_to = self.loaded_to + (n - 1);
    }

    /// Moves the cursor one byte forward, refilling the other half when it meets
    /// the sentinel at the end of a half whose successor is not loaded yet.
    pub fn next(&mut self) -> (r: Scan)
        requires
            old(self).wf(),
        ensures
            final(self).wf(),
            final(self).source() == old(self).source(),
            final(self).half() == old(self).half(),
            final(self).start() == old(self).start(),
            match r {
                Scan::Byte(b) => {
                    &&& !at_end(old(self).source(), old(self).pos() as int)
                    &&& b == old(self).source()[old(self).pos() as int]
                    &&& final(self).pos() == old(self).pos() + 1
                },
                Scan::End => {
                    &&& at_end(old(self).source(), old(self).pos() as int)
                    &&& final(self).pos() == old(self).pos()
                },
                Scan::Full => {
                    &&& old(self).pos() >= old(self).start() + old(self).half()
                    &&& final(self).pos() == old(self).pos()
                },
            },
    {
        let n = self.half;
        let x = self.forward;
        proof {
            if x != n - 1 && x != 2 * n - 1 {
                self.lemma_slot_byte(x as int, self.pos as int);
            }
        }
        let b = self.buffer[x];
        if b != 0 {
            self.forward = x + 1;
            self.pos = self.pos + 1;
            return Scan::Byte(b);
        }
        if x != n - 1 && x != 2 * n - 1 {
            return Scan::End;
        }
        let next_base: usize = if x == n - 1 {
            n
        } else {
            0
        };
        if self.pos == self.loaded_to {
            if self.start + (n - 1) < self.loaded_to {
                return Scan::Full;
            }
            self.refill();
        }
        proof {
            self.lemma_slot_byte(next_base as int, self.pos as int);
        }
        let c = self.buffer[next_base];
        if c == 0 {
            return Scan::End;
        }
        self.forward = next_base + 1;
        self.pos = self.pos + 1;
        Scan::Byte(c)
    }

    /// Facts that hold of every well-formed buffer.
    pub proof fn lemma_bounds(&self)
        requires
            self.wf(),
        ensures
            self.half() >= 2,
            self.source().len() + 2 * self.half() <= usize::MAX,
            self.start() <= self.pos() <= self.source().len(),
    {
    }

    /// Text offset of the next byte to scan.
    pub fn position(&self) -> (r: usize)
        ensures
            r == self.pos(),
    {
        self.pos
    }

    /// Moves the cursor one byte back, from the first slot of a half to the last
    /// byte of the other one.
    pub fn back(&mut self)
        requires
            old(self).wf(),
            old(self).start() < old(self).pos(),
        ensures
            final(self).wf(),
            final(self).source() == old(self).source(),
            final(self).half() == old(self).half(),
            final(self).start() == old(self).start(),
            final(self).pos() == old(self).pos() - 1,
    {
        let n = self.half;
        if self.forward == 0 {
            self.forward = 2 * n - 2;
        } else if self.forward == n {
            self.forward = n - 2;
        } else {
            self.forward = self.forward - 1;
        }
        self.pos = self.pos - 1;
    }

    /// Drops the bytes read since the start of the lexeme: the next lexeme
    /// starts at the cursor.
    pub fn discard(&mut self)
        requires
            old(self).wf(),
        ensures
            final(self).wf(),
            final(self).source() == old(self).source(),
            final(self).half() == old(self).half(),
            final(self).pos() == old(self).pos(),
            final(self).start() == old(self).pos(),
    {
        self.begin = self.forward;
        self.start = self.pos;
    }

    /// Copies the lexeme, from its first byte up to the cursor, walking round the
    /// window and stepping over the sentinel between the halves; the next lexeme
    /// then starts at the cursor.
    pub fn get_lexeme(&mut self) -> (r: Vec<u8>)
        requires
            old(self).wf(),
        ensures
            final(self).wf(),
            final(self).source() == old(self).source(),
            final(self).half() == old(self).half(),
            final(self).pos() == old(self).pos(),
            final(self).start() == old(self).pos(),
            r@ == old(self).source().subrange(old(self).start() as int, old(self).pos() as int),
    {
        let n = self.half;
        let count = self.pos - self.start;
        let mut out: Vec<u8> = Vec::new();
        let mut i = self.begin;
        let mut t: usize = 0;
        while t < count
            invariant
                self.wf(),
                n == self.half,
                count == self.pos - self.start,
                t <= count,
                self.slot_of(i as int, self.start + t),
                out@ == self.source@.subrange(self.start as int, self.start + t),
            decreases count - t,
        {
            if i == n - 1 || i == 2 * n - 1 {
                i = if i == n - 1 {
                    n
                } else {
                    0
                };
            }
            proof {
                self.lemma_slot_byte(i as int, self.start + t);
            }
            out.push(self.buffer[i]);
            i = i + 1;
            t = t + 1;
            assert(out@ =~= self.source@.subrange(self.start as int, self.start + t));
        }
        self.begin = self.forward;
        self.start = self.pos;
        out
    }
}

} // verus!

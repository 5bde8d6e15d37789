//! Line framing of the GPS byte stream: bytes are gathered up to a line
//! feed, and a line is handed on only where it starts with `$`. A line that
//! does not is cut back to its first `$`, or dropped where it has none.
use vstd::prelude::*;

verus! {

/// First byte of every NMEA sentence.
pub const SENTENCE_START: u8 = 0x24;

/// Byte that ends every line.
pub const LINE_END: u8 = 0x0A;

/// The bytes from the first `$` on; empty where there is none.
pub open spec fn resync(buf: Seq<u8>) -> Seq<u8>
    decreases buf.len(),
{
    if buf.len() == 0 {
        buf
    } else if buf[0] == SENTENCE_START {
        buf
    } else {
        resync(buf.drop_first())
    }
}

/// One step of the line framer: the buffer after byte `b`, and the line it
/// completes, if any.
pub open spec fn line_step(buf: Seq<u8>, b: u8) -> (Seq<u8>, Option<Seq<u8>>) {
    if b != LINE_END {
        (buf.push(b), None)
    } else if buf.len() > 0 && buf[0] == SENTENCE_START {
        (Seq::<u8>::empty(), Some(buf))
    } else {
        (resync(buf), None)
    }
}

/// Gathers GPS bytes into sentences.
pub struct NmeaLineBuffer {
    buf: Vec<u8>,
}

impl View for NmeaLineBuffer {
    type V = Seq<u8>;

    closed spec fn view(&self) -> Seq<u8> {
        self.buf@
    }
}

proof fn lemma_resync_skip(buf: Seq<u8>, i: int)
    requires
        0 <= i < buf.len(),
        buf[i] != SENTENCE_START,
    ensures
        resync(buf.subrange(i, buf.len() as int)) == resync(buf.subrange(i + 1, buf.len() as int)),
{
    let s = buf.subrange(i, buf.len() as int);
    assert(s.drop_first() =~= buf.subrange(i + 1, buf.len() as int));
}

impl NmeaLineBuffer {
    /// An empty line buffer.
    pub fn new() -> (r: NmeaLineBuffer)
        ensures
            r@ == Seq::<u8>::empty(),
    {
        NmeaLineBuffer { buf: Vec::new() }
    }

    /// Feed one byte; returns the line, without its line feed, that the
    /// byte completes.
    pub fn push_byte(&mut self, b: u8) -> (r: Option<Vec<u8>>)
        ensures
            final(self)@ == line_step(old(self)@, b).0,
            match r {
                Some(line) => line_step(old(self)@, b).1 == Some(line@),
                None => line_step(old(self)@, b).1 is None,
            },
    {
        if b != LINE_END {
            self.buf.push(b);
            return None;
        }
        let n = self.buf.len();
        if n > 0 && self.buf[0] == SENTENCE_START {
            let mut line: Vec<u8> = Vec::new();
            std::mem::swap(&mut line, &mut self.buf);
            return Some(line);
        }
        let mut i: usize = 0;
        assert(self.buf@.subrange(0, n as int) =~= self.buf@);
        while i < n && self.buf[i] != SENTENCE_START
            invariant
                n == self.buf@.len(),
                self.buf@ == old(self)@,
                i <= n,
                resync(self.buf@) == resync(self.buf@.subrange(i as int, n as int)),
            decreases n - i,
        {
            proof {
                lemma_resync_skip(self.buf@, i as int);
            }
            i = i + 1;
        }
        let mut kept: Vec<u8> = Vec::new();
        let mut j: usize = i;
        while j < n
            invariant
                n == self.buf@.len(),
                i <= j <= n,
                kept@ == self.buf@.subrange(i as int, j as int),
            decreases n - j,
        {
            kept.push(self.buf[j]);
            assert(kept@ =~= self.buf@.subrange(i as int, j as int + 1));
            j = j + 1;
        }
        proof {
            let rest = self.buf@.subrange(i as int, n as int);
            if i < n {
                assert(rest[0] == SENTENCE_START);
            } else {
                assert(rest.len() == 0);
            }
            assert(kept@ == resync(self.buf@));
        }
        self.buf = kept;
        None
    }
}

} // verus!

//! The in-memory model of one I/O handle: the bytes available to read,
//! a cursor over them, and the bytes written so far. The engine's reads
//! and writes are defined over this model; feeding it from a file, a
//! socket or the console is outside work.
use vstd::prelude::*;

verus! {

/// One open handle: readable bytes, the read cursor, and written bytes.
#[derive(Debug)]
pub struct IoBuffer {
    pub input: Vec<u8>,
    pub pos: usize,
    pub written: Vec<u8>,
}

/// A buffer is well formed when its cursor is within its input.
pub open spec fn iobuf_wf(b: IoBuffer) -> bool {
    b.pos <= b.input@.len()
}

/// The bytes a buffer has not yet read.
pub open spec fn remaining(b: IoBuffer) -> Seq<u8> {
    b.input@.skip(b.pos as int)
}

/// Whether `s` ends with `pat`.
pub open spec fn ends_with(s: Seq<u8>, pat: Seq<u8>) -> bool {
    s.len() >= pat.len() && s.skip(s.len() - pat.len()) == pat
}

/// The number of bytes a read-until consumes from `rem`, scanning from
/// prefix length `i`: the least length whose prefix ends with `pat`, or
/// all of `rem` when no prefix does.
pub open spec fn ru_scan(rem: Seq<u8>, pat: Seq<u8>, i: nat) -> nat
    decreases rem.len() - i when i <= rem.len()
{
    if i >= rem.len() {
        rem.len()
    } else if ends_with(rem.take(i + 1 as int), pat) {
        (i + 1) as nat
    } else {
        ru_scan(rem, pat, i + 1)
    }
}

/// What a read-until returns: nothing for an empty pattern, else the
/// shortest prefix of the unread bytes that ends with the pattern, or all
/// of them when the pattern never occurs.
pub open spec fn read_until_spec(rem: Seq<u8>, pat: Seq<u8>) -> Seq<u8> {
    if pat.len() == 0 {
        Seq::empty()
    } else {
        rem.take(ru_scan(rem, pat, 0) as int)
    }
}

/// Whether `s` ends with `pat`, byte for byte.
#[verifier::loop_isolation(false)]
fn ends_with_exec(s: &Vec<u8>, pat: &Vec<u8>) -> (r: bool)
    ensures
        r == ends_with(s@, pat@),
{
    if s.len() < pat.len() {
        return false;
    }
    let start = s.len() - pat.len();
    let mut k: usize = 0;
    while k < pat.len()
        invariant
            k <= pat@.len(),
            s@.len() >= pat@.len(),
            start == s@.len() - pat@.len(),
            forall|m: int| 0 <= m < k ==> s@.skip(start as int)[m] == pat@[m],
        decreases pat@.len() - k,
    {
        proof {
            assert(start + k < s@.len());
        }
        if s[start + k] != pat[k] {
            proof {
                assert(s@.skip(start as int)[k as int] != pat@[k as int]);
            }
            return false;
        }
        k = k + 1;
    }
    proof {
        assert(s@.skip(start as int) =~= pat@);
    }
    true
}

impl IoBuffer {
    /// A fresh handle over the given readable bytes.
    pub fn over(input: Vec<u8>) -> (r: IoBuffer)
        ensures
            iobuf_wf(r),
            r.input@ == input@,
            r.pos == 0,
            r.written@ == Seq::<u8>::empty(),
    {
        IoBuffer { input, pos: 0, written: Vec::new() }
    }

    /// Reads up to `size` bytes, advancing the cursor by exactly as many
    /// bytes as are returned; a zero size reads nothing and consumes
    /// nothing.
    pub fn read_bytes(&mut self, size: usize) -> (r: Vec<u8>)
        requires
            iobuf_wf(*old(self)),
        ensures
            iobuf_wf(*final(self)),
            final(self).input@ == old(self).input@,
            final(self).written@ == old(self).written@,
            r@ == remaining(*old(self)).take(
                if size as int <= remaining(*old(self)).len() {
                    size as int
                } else {
                    remaining(*old(self)).len() as int
                },
            ),
            final(self).pos == old(self).pos + r@.len(),
    {
        let mut out: Vec<u8> = Vec::new();
        let mut k: usize = 0;
        while k < size && self.pos < self.input.len()
            invariant
                iobuf_wf(*self),
                self.input@ == old(self).input@,
                self.written@ == old(self).written@,
                k <= size,
                self.pos == old(self).pos + k,
                out@.len() == k,
                out@ == old(self).input@.subrange(old(self).pos as int, self.pos as int),
            decreases size - k,
        {
            out.push(self.input[self.pos]);
            proof {
                assert(out@ =~= old(self).input@.subrange(
                    old(self).pos as int,
                    self.pos + 1 as int,
                ));
            }
            self.pos = self.pos + 1;
            k = k + 1;
        }
        proof {
            assert(out@ =~= remaining(*old(self)).take(out@.len() as int));
        }
        out
    }

    /// Appends bytes to the written side.
    pub fn write_bytes(&mut self, data: &Vec<u8>)
        requires
            iobuf_wf(*old(self)),
        ensures
            iobuf_wf(*final(self)),
            final(self).input@ == old(self).input@,
            final(self).pos == old(self).pos,
            final(self).written@ == old(self).written@ + data@,
    {
        let mut k: usize = 0;
        while k < data.len()
            invariant
                iobuf_wf(*self),
                self.input@ == old(self).input@,
                self.pos == old(self).pos,
                k <= data.len(),
                self.written@ == old(self).written@ + data@.take(k as int),
            decreases data.len() - k,
        {
            self.written.push(data[k]);
            proof {
                assert(old(self).written@ + data@.take(k + 1) =~= (old(self).written@
                    + data@.take(k as int)).push(data@[k as int]));
            }
            k = k + 1;
        }
        proof {
            assert(data@.take(data@.len() as int) =~= data@);
        }
    }

    /// Reads until the byte pattern matches (inclusive) or the input is
    /// exhausted, consuming exactly what it returns; an empty pattern
    /// reads nothing and consumes nothing.
    #[verifier::loop_isolation(false)]
    pub fn read_until(&mut self, pattern: &Vec<u8>) -> (r: Vec<u8>)
        requires
            iobuf_wf(*old(self)),
        ensures
            iobuf_wf(*final(self)),
            final(self).input@ == old(self).input@,
            final(self).written@ == old(self).written@,
            r@ == read_until_spec(remaining(*old(self)), pattern@),
            final(self).pos == old(self).pos + r@.len(),
    {
        if pattern.len() == 0 {
            return Vec::new();
        }
        let ghost rem = remaining(*old(self));
        let mut out: Vec<u8> = Vec::new();
        let mut i: usize = 0;
        loop
            invariant
                iobuf_wf(*self),
                self.input@ == old(self).input@,
                self.written@ == old(self).written@,
                self.pos == old(self).pos + i,
                i <= rem.len(),
                out@ == rem.take(i as int),
                pattern@.len() > 0,
                forall|j: nat| j <= i ==> ru_scan(rem, pattern@, 0) == #[trigger] ru_scan(
                    rem,
                    pattern@,
                    j,
                ),
            decreases rem.len() - i,
        {
            if self.pos >= self.input.len() {
                proof {
                    assert(i == rem.len());
                    assert(ru_scan(rem, pattern@, i as nat) == rem.len());
                }
                break;
            }
            let b = self.input[self.pos];
            out.push(b);
            self.pos = self.pos + 1;
            proof {
                assert(out@ =~= rem.take(i + 1));
            }
            let matched: bool = ends_with_exec(&out, pattern);
            proof {
                assert(matched == ends_with(rem.take(i + 1), pattern@));
            }
            if matched {
                proof {
                    assert(ru_scan(rem, pattern@, i as nat) == i + 1);
                }
                i = i + 1;
                break;
            }
            proof {
                assert(ru_scan(rem, pattern@, i as nat) == ru_scan(rem, pattern@, (i + 1) as nat));
                assert forall|j: nat| j <= i + 1 implies ru_scan(rem, pattern@, 0)
                    == #[trigger] ru_scan(rem, pattern@, j) by {}
            }
            i = i + 1;
        }
        proof {
            assert(out@ == rem.take(ru_scan(rem, pattern@, 0) as int));
        }
        out
    }
}

} // verus!

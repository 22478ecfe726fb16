//! Byte-oriented standard I/O adapters.
//!
//! The host's I/O boundary hands over one byte per call — a read that
//! signals end of input with -1, and a one-byte write. [`ByteIo`] models
//! that boundary as explicit state: the input still to be served and the
//! output written so far. [`Stdin`] and [`Stdout`] adapt it to buffer
//! reads, line-oriented reads and buffer writes. Each input byte becomes
//! one character of the resulting text, and lines are split on the newline
//! byte with a carriage return directly before it stripped as well.

use vstd::prelude::*;
use vstd::math::min;

verus! {

/// The host's byte I/O boundary as explicit state: what remains to be read
/// and what has been written.
pub struct ByteIo {
    input: Vec<u8>,
    consumed: usize,
    output: Vec<u8>,
}

/// The characters that a sequence of input bytes turns into, one character
/// per byte.
pub open spec fn chars_of(s: Seq<u8>) -> Seq<char> {
    s.map_values(|b: u8| b as char)
}

/// Position of the first newline byte in `s`, or `s.len()` if there is none.
pub open spec fn line_break(s: Seq<u8>) -> int
    decreases s.len(),
{
    if s.len() == 0 {
        0
    } else if s[0] == 10 {
        0
    } else {
        1 + line_break(s.drop_first())
    }
}

/// How many bytes a line-oriented read consumes from `s`: everything up to
/// and including the first newline, or all of `s` if it has none.
pub open spec fn line_advance(s: Seq<u8>) -> int {
    if line_break(s) < s.len() {
        line_break(s) + 1
    } else {
        line_break(s)
    }
}

/// A consumed line with its terminator stripped: a trailing newline is
/// dropped, and a carriage return directly before that newline with it.
pub open spec fn chop_line_end(line: Seq<u8>) -> Seq<u8> {
    if line.len() > 0 && line.last() == 10 {
        let body = line.drop_last();
        if body.len() > 0 && body.last() == 13 {
            body.drop_last()
        } else {
            body
        }
    } else {
        line
    }
}

/// `line_break` always lands between 0 and the length of `s`, everything
/// before it is not a newline, and it points at a newline unless it is the
/// length.
pub proof fn lemma_line_break_bounds(s: Seq<u8>)
    ensures
        0 <= line_break(s) <= s.len(),
        forall|j: int| 0 <= j < line_break(s) ==> s[j] != 10,
        line_break(s) < s.len() ==> s[line_break(s)] == 10,
    decreases s.len(),
{
    if s.len() > 0 && s[0] != 10 {
        lemma_line_break_bounds(s.drop_first());
        assert forall|j: int| 0 <= j < line_break(s) implies s[j] != 10 by {
            if j > 0 {
                assert(s.drop_first()[j - 1] == s[j]);
            }
        }
    }
}

/// A position with no newline before it that is either a newline or the end
/// is exactly `line_break`.
proof fn lemma_line_break_is(s: Seq<u8>, i: int)
    requires
        0 <= i <= s.len(),
        forall|j: int| 0 <= j < i ==> s[j] != 10,
        i < s.len() ==> s[i] == 10,
    ensures
        line_break(s) == i,
    decreases s.len(),
{
    if s.len() > 0 && s[0] != 10 {
        assert(i != 0);
        lemma_line_break_is(s.drop_first(), i - 1);
    }
}

/// All the lines in `s`, split on newline bytes, terminators stripped.
pub open spec fn split_lines(s: Seq<u8>) -> Seq<Seq<u8>>
    decreases s.len(),
    via split_lines_decreases
{
    if s.len() == 0 {
        Seq::empty()
    } else {
        seq![chop_line_end(s.take(line_advance(s)))] + split_lines(s.skip(line_advance(s)))
    }
}

#[via_fn]
proof fn split_lines_decreases(s: Seq<u8>) {
    lemma_line_break_bounds(s);
}

/// Relies on String::push: appends exactly the one character given.
#[verifier::external_body]
fn push_char(s: &mut String, c: char)
    ensures
        final(s)@ == old(s)@ + seq![c],
{
    s.push(c);
}

impl ByteIo {
    /// The bytes not yet served to a read.
    pub closed spec fn remaining(&self) -> Seq<u8> {
        self.input@.skip(self.consumed as int)
    }

    /// The bytes written so far.
    pub closed spec fn output(&self) -> Seq<u8> {
        self.output@
    }

    /// The boundary's integrity invariant.
    pub closed spec fn wf(&self) -> bool {
        self.consumed <= self.input@.len()
    }

    /// The bytes still to be served fit a machine-sized count, since they
    /// sit in one buffer.
    proof fn lemma_remaining_bounded(&self)
        requires
            self.wf(),
        ensures
            self.remaining().len() <= usize::MAX as nat,
    {
        vstd::std_specs::vec::axiom_spec_len(&self.input);
        assert(self.input@.len() <= usize::MAX as nat);
    }

    /// A boundary that will serve exactly `input` and has written nothing.
    pub fn new(input: Vec<u8>) -> (io: ByteIo)
        ensures
            io.wf(),
            io.remaining() == input@,
            io.output() == Seq::<u8>::empty(),
    {
        let io = ByteIo { input, consumed: 0, output: Vec::new() };
        proof {
            assert(io.remaining() =~= io.input@);
        }
        io
    }

    /// Whether any input is left to read.
    pub fn has_input(&self) -> (b: bool)
        requires
            self.wf(),
        ensures
            b == (self.remaining().len() > 0),
    {
        self.consumed < self.input.len()
    }

    /// The read import: serves the next input byte, or -1 once the input is
    /// exhausted.
    pub fn read_byte(&mut self) -> (b: i32)
        requires
            old(self).wf(),
        ensures
            final(self).wf(),
            final(self).output() == old(self).output(),
            old(self).remaining().len() == 0 ==> b == -1
                && final(self).remaining() == old(self).remaining(),
            old(self).remaining().len() > 0 ==> b == old(self).remaining()[0] as i32
                && final(self).remaining() == old(self).remaining().drop_first(),
    {
        if self.consumed < self.input.len() {
            let b = self.input[self.consumed];
            self.consumed = self.consumed + 1;
            proof {
                assert(self.input@.skip(self.consumed as int) =~= old(self).remaining()
                    .drop_first());
            }
            b as i32
        } else {
            -1
        }
    }

    /// The bytes written so far, for inspection.
    pub fn written(&self) -> (v: &Vec<u8>)
        ensures
            v@ == self.output(),
    {
        &self.output
    }

    /// The write import: sends one byte across the boundary.
    pub fn write_byte(&mut self, b: i32)
        requires
            old(self).wf(),
            0 <= b <= 255,
        ensures
            final(self).wf(),
            final(self).remaining() == old(self).remaining(),
            final(self).output() == old(self).output().push(b as u8),
    {
        self.output.push(b as u8);
    }
}

/// A handle to the read side of the boundary.
pub struct Stdin;

/// A handle to the write side of the boundary.
pub struct Stdout;

/// The read-side handle.
pub fn stdin() -> (s: Stdin) {
    Stdin
}

/// The write-side handle.
pub fn stdout() -> (s: Stdout) {
    Stdout
}

impl Stdin {
    /// Fills the front of `buf` with input bytes: as many as `buf` holds,
    /// or as many as remain, whichever is smaller. The rest of `buf` keeps
    /// its old contents, and `buf` keeps its length.
    pub fn read(&self, io: &mut ByteIo, buf: &mut Vec<u8>) -> (n: usize)
        requires
            old(io).wf(),
        ensures
            final(io).wf(),
            n as int == min(old(buf)@.len() as int, old(io).remaining().len() as int),
            final(buf)@ == old(io).remaining().take(n as int) + old(buf)@.skip(n as int),
            final(io).remaining() == old(io).remaining().skip(n as int),
            final(io).output() == old(io).output(),
    {
        let ghost r0 = io.remaining();
        let mut i: usize = 0;
        while i < buf.len() && io.has_input()
            invariant
                io.wf(),
                i <= buf@.len(),
                i as int <= r0.len(),
                buf@.len() == old(buf)@.len(),
                io.remaining() == r0.skip(i as int),
                io.output() == old(io).output(),
                buf@ == r0.take(i as int) + old(buf)@.skip(i as int),
            decreases buf@.len() - i,
        {
            let b = io.read_byte();
            buf[i] = b as u8;
            i = i + 1;
            proof {
                assert(r0.skip(i as int - 1).drop_first() =~= r0.skip(i as int));
                assert(r0.skip(i as int - 1)[0] == r0[i as int - 1]);
                assert(buf@ =~= r0.take(i as int) + old(buf)@.skip(i as int));
            }
        }
        proof {
            assert(buf@ =~= r0.take(i as int) + old(buf)@.skip(i as int));
        }
        i
    }

    /// Reads one line: every byte up to and including the first newline, or
    /// up to the end of input, is appended to `line` as one character per
    /// byte. Returns how many bytes were consumed.
    pub fn read_line(&self, io: &mut ByteIo, line: &mut String) -> (n: usize)
        requires
            old(io).wf(),
        ensures
            final(io).wf(),
            n as int == line_advance(old(io).remaining()),
            final(line)@ == old(line)@ + chars_of(old(io).remaining().take(n as int)),
            final(io).remaining() == old(io).remaining().skip(n as int),
            final(io).output() == old(io).output(),
    {
        let ghost r0 = io.remaining();
        proof {
            io.lemma_remaining_bounded();
        }
        let mut n: usize = 0;
        let mut done: bool = false;
        while !done
            invariant
                io.wf(),
                n as int <= r0.len(),
                r0.len() <= usize::MAX as nat,
                io.remaining() == r0.skip(n as int),
                io.output() == old(io).output(),
                line@ == old(line)@ + chars_of(r0.take(n as int)),
                forall|j: int| 0 <= j < n as int - 1 ==> r0[j] != 10,
                !done ==> forall|j: int| 0 <= j < n as int ==> r0[j] != 10,
                done ==> (n as int == r0.len() || (n > 0 && r0[n as int - 1] == 10)),
            decreases r0.len() - n as int + (if done {
                0int
            } else {
                1int
            }),
        {
            let b = io.read_byte();
            if b == -1 {
                done = true;
            } else {
                proof {
                    assert(r0.skip(n as int).drop_first() =~= r0.skip(n as int + 1));
                    assert(r0.skip(n as int)[0] == r0[n as int]);
                }
                push_char(line, (b as u8) as char);
                n = n + 1;
                if b == 10 {
                    done = true;
                }
                proof {
                    assert(r0.take(n as int).drop_last() =~= r0.take(n as int - 1));
                    assert(line@ =~= old(line)@ + chars_of(r0.take(n as int)));
                }
            }
        }
        proof {
            if n as int == r0.len() && (n == 0 || r0[n as int - 1] != 10) {
                lemma_line_break_is(r0, n as int);
            } else {
                lemma_line_break_is(r0, n as int - 1);
            }
        }
        n
    }

    /// Reads the whole input as lines: split on newline bytes, each line's
    /// terminator stripped, each byte one character.
    pub fn lines(&self, io: &mut ByteIo) -> (ls: Vec<String>)
        requires
            old(io).wf(),
        ensures
            final(io).wf(),
            final(io).remaining().len() == 0,
            final(io).output() == old(io).output(),
            ls@.map_values(|l: String| l@) == split_lines(old(io).remaining()).map_values(
                |b: Seq<u8>| chars_of(b),
            ),
    {
        let ghost r0 = io.remaining();
        let mut ls: Vec<String> = Vec::new();
        while io.has_input()
            invariant
                io.wf(),
                io.output() == old(io).output(),
                ls@.map_values(|l: String| l@) + split_lines(io.remaining()).map_values(
                    |b: Seq<u8>| chars_of(b),
                ) =~= split_lines(r0).map_values(|b: Seq<u8>| chars_of(b)),
            decreases io.remaining().len(),
        {
            let ghost before = io.remaining();
            let line = self.next_line(io);
            ls.push(line);
            proof {
                lemma_line_break_bounds(before);
                assert(ls@.map_values(|l: String| l@) =~= ls@.drop_last().map_values(
                    |l: String| l@,
                ).push(ls@.last()@));
            }
        }
        proof {
            assert(split_lines(io.remaining()) =~= Seq::<Seq<u8>>::empty());
            assert(ls@.map_values(|l: String| l@) =~= split_lines(r0).map_values(
                |b: Seq<u8>| chars_of(b),
            ));
        }
        ls
    }

    /// Reads one line as [`Self::read_line`] does, but hands it back as its
    /// own string with the terminator stripped.
    fn next_line(&self, io: &mut ByteIo) -> (line: String)
        requires
            old(io).wf(),
            old(io).remaining().len() > 0,
        ensures
            final(io).wf(),
            final(io).output() == old(io).output(),
            final(io).remaining() == old(io).remaining().skip(line_advance(old(io).remaining())),
            line@ == chars_of(chop_line_end(old(io).remaining().take(line_advance(old(io).remaining())))),
    {
        let ghost r0 = io.remaining();
        proof {
            io.lemma_remaining_bounded();
        }
        let mut bytes: Vec<u8> = Vec::new();
        let mut n: usize = 0;
        let mut done: bool = false;
        let mut saw_newline: bool = false;
        while !done
            invariant
                io.wf(),
                n as int <= r0.len(),
                r0.len() <= usize::MAX as nat,
                io.remaining() == r0.skip(n as int),
                io.output() == old(io).output(),
                !saw_newline ==> bytes@ == r0.take(n as int),
                !saw_newline ==> forall|j: int| 0 <= j < n as int ==> r0[j] != 10,
                !done ==> !saw_newline,
                saw_newline ==> n > 0 && r0[n as int - 1] == 10 && bytes@ == r0.take(
                    n as int - 1,
                ) && (forall|j: int| 0 <= j < n as int - 1 ==> r0[j] != 10),
                done ==> saw_newline || n as int == r0.len(),
            decreases r0.len() - n as int + (if done {
                0int
            } else {
                1int
            }),
        {
            let b = io.read_byte();
            if b == -1 {
                done = true;
            } else {
                proof {
                    assert(r0.skip(n as int).drop_first() =~= r0.skip(n as int + 1));
                    assert(r0.skip(n as int)[0] == r0[n as int]);
                }
                n = n + 1;
                if b == 10 {
                    saw_newline = true;
                    done = true;
                } else {
                    bytes.push(b as u8);
                }
                proof {
                    assert(r0.take(n as int).drop_last() =~= r0.take(n as int - 1));
                    if !saw_newline {
                        assert(bytes@ =~= r0.take(n as int));
                    }
                }
            }
        }
        proof {
            if saw_newline {
                lemma_line_break_is(r0, n as int - 1);
                assert(line_advance(r0) == n as int);
            } else {
                lemma_line_break_is(r0, n as int);
                assert(line_advance(r0) == n as int);
            }
        }
        if saw_newline && bytes.len() > 0 && bytes[bytes.len() - 1] == 13 {
            bytes.pop();
        }
        proof {
            let adv = line_advance(r0);
            if saw_newline {
                assert(r0.take(adv).last() == r0[n as int - 1]);
                assert(r0.take(adv).drop_last() =~= r0.take(adv - 1));
                assert(bytes@ =~= chop_line_end(r0.take(adv)));
            } else {
                if n > 0 {
                    assert(r0.take(adv).last() == r0[n as int - 1]);
                }
                assert(bytes@ =~= chop_line_end(r0.take(adv)));
            }
        }
        string_of_bytes(&bytes)
    }
}

/// Builds the text whose characters are the given bytes, one each.
fn string_of_bytes(bytes: &Vec<u8>) -> (s: String)
    ensures
        s@ == chars_of(bytes@),
{
    let mut s = String::new();
    let mut i: usize = 0;
    while i < bytes.len()
        invariant
            i <= bytes@.len(),
            s@ == chars_of(bytes@.take(i as int)),
        decreases bytes@.len() - i,
    {
        push_char(&mut s, bytes[i] as char);
        i = i + 1;
        proof {
            assert(bytes@.take(i as int).drop_last() =~= bytes@.take(i as int - 1));
            assert(s@ =~= chars_of(bytes@.take(i as int)));
        }
    }
    proof {
        assert(bytes@.take(bytes@.len() as int) =~= bytes@);
    }
    s
}

impl Stdout {
    /// Writes every byte of `buf` across the boundary, in order, one import
    /// call per byte, and reports that all of them were written.
    pub fn write(&self, io: &mut ByteIo, buf: &Vec<u8>) -> (n: usize)
        requires
            old(io).wf(),
        ensures
            final(io).wf(),
            n == buf@.len(),
            final(io).output() == old(io).output() + buf@,
            final(io).remaining() == old(io).remaining(),
    {
        let mut i: usize = 0;
        while i < buf.len()
            invariant
                io.wf(),
                i <= buf@.len(),
                io.remaining() == old(io).remaining(),
                io.output() == old(io).output() + buf@.take(i as int),
            decreases buf@.len() - i,
        {
            io.write_byte(buf[i] as i32);
            i = i + 1;
            proof {
                assert(old(io).output() + buf@.take(i as int) =~= (old(io).output() + buf@.take(
                    i as int - 1,
                )).push(buf@[i as int - 1]));
            }
        }
        proof {
            assert(old(io).output() + buf@.take(buf@.len() as int) =~= old(io).output() + buf@);
        }
        i
    }

    /// Writing is unbuffered, so there is nothing to flush.
    pub fn flush(&self, io: &mut ByteIo)
        requires
            old(io).wf(),
        ensures
            final(io).wf(),
            final(io).remaining() == old(io).remaining(),
            final(io).output() == old(io).output(),
    {
    }
}

} // verus!

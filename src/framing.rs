//! Cutting input streams into the units that travel as one message each.
use vstd::prelude::*;
use crate::session::Event;

verus! {

/// Capacity of the buffer that one read of the local input fills.
pub const READ_CAPACITY: usize = 1024;

/// The chunk that a read yields: `None` when the read failed or reached the
/// end of the stream (reported as `None` or `Some(0)`), otherwise the first
/// `n` bytes of the buffer.
pub open spec fn chunk_of(buf: Seq<u8>, read: Option<usize>) -> Option<Seq<u8>> {
    match read {
        None => None,
        Some(n) => if n == 0 { None } else { Some(buf.subrange(0, n as int)) },
    }
}

/// Turns the outcome of one read into a chunk. `read` is `None` for an I/O
/// error and `Some(n)` for a read of `n` bytes into `buf`. The chunk holds
/// exactly the bytes read, never padding.
pub fn chunk_from_read(buf: Vec<u8>, read: Option<usize>) -> (r: Option<Vec<u8>>)
    requires
        read matches Some(n) ==> n <= buf.len(),
    ensures
        r matches Some(c) ==> chunk_of(buf@, read) == Some(c@),
        r is None <==> chunk_of(buf@, read) is None,
{
    match read {
        None => None,
        Some(n) => {
            if n == 0 {
                None
            } else {
                let mut buf = buf;
                buf.truncate(n);
                Some(buf)
            }
        },
    }
}

/// The event that one read of the source amounts to: the chunk read, or
/// the end of the source when the read failed or read nothing.
pub fn read_event(buf: Vec<u8>, read: Option<usize>) -> (e: Event)
    requires
        read matches Some(n) ==> n <= buf.len(),
    ensures
        e is SourceChunk || e is SourceEnded,
        e matches Event::SourceChunk(c) ==> chunk_of(buf@, read) == Some(c@),
        e is SourceEnded <==> chunk_of(buf@, read) is None,
{
    match chunk_from_read(buf, read) {
        Some(c) => Event::SourceChunk(c),
        None => Event::SourceEnded,
    }
}

/// Line feed, which ends a line of the subprocess's output.
pub const LF: u8 = 10;

/// Carriage return, dropped when it stands right before the line feed.
pub const CR: u8 = 13;

/// A line's content with a trailing carriage return removed.
pub open spec fn strip_cr(s: Seq<u8>) -> Seq<u8> {
    if s.len() > 0 && s.last() == CR {
        s.drop_last()
    } else {
        s
    }
}

/// The complete lines in `s`, read after the partial line `cur`, and the
/// partial line left at the end. Each line is cut at a line feed, which is
/// dropped together with a carriage return right before it.
pub open spec fn lines_after(cur: Seq<u8>, s: Seq<u8>) -> (Seq<Seq<u8>>, Seq<u8>)
    decreases s.len(),
{
    if s.len() == 0 {
        (Seq::empty(), cur)
    } else if s[0] == LF {
        let (ls, rest) = lines_after(Seq::empty(), s.drop_first());
        (seq![strip_cr(cur)] + ls, rest)
    } else {
        lines_after(cur.push(s[0]), s.drop_first())
    }
}

/// The contents of a sequence of byte vectors.
pub open spec fn views(v: Seq<Vec<u8>>) -> Seq<Seq<u8>> {
    v.map_values(|l: Vec<u8>| l@)
}

/// Adds the bytes just read from the subprocess's output to `pending`, the
/// partial line read so far, and takes out the lines completed by them.
/// `pending` keeps the new partial line.
pub fn feed_lines(pending: &mut Vec<u8>, bytes: &[u8]) -> (lines: Vec<Vec<u8>>)
    ensures
        (views(lines@), final(pending)@) == lines_after(old(pending)@, bytes@),
{
    let ghost start = pending@;
    let mut lines: Vec<Vec<u8>> = Vec::new();
    let mut i: usize = 0;
    assert(bytes@.subrange(0, bytes@.len() as int) =~= bytes@);
    assert(views(lines@) + lines_after(pending@, bytes@).0 =~= lines_after(pending@, bytes@).0);
    while i < bytes.len()
        invariant
            i <= bytes.len(),
            lines_after(start, bytes@) == (
                views(lines@) + lines_after(pending@, bytes@.subrange(i as int, bytes@.len() as int)).0,
                lines_after(pending@, bytes@.subrange(i as int, bytes@.len() as int)).1,
            ),
        decreases bytes.len() - i,
    {
        let ghost rem = bytes@.subrange(i as int, bytes@.len() as int);
        let ghost before = lines@;
        assert(rem[0] == bytes@[i as int]);
        assert(rem.drop_first() == bytes@.subrange(i + 1, bytes@.len() as int));
        let b = bytes[i];
        if b == LF {
            let mut line: Vec<u8> = Vec::new();
            core::mem::swap(&mut line, pending);
            let ghost content = line@;
            let n = line.len();
            if n > 0 && line[n - 1] == CR {
                line.pop();
            }
            assert(line@ == strip_cr(content));
            let ghost pushed = line;
            lines.push(line);
            assert(lines@ == before.push(pushed));
            assert(views(lines@) =~= views(before) + seq![strip_cr(content)]);
            assert(pending@ =~= Seq::<u8>::empty());
        } else {
            pending.push(b);
        }
        i = i + 1;
    }
    assert(bytes@.subrange(i as int, bytes@.len() as int) =~= Seq::<u8>::empty());
    assert(views(lines@) + Seq::<Seq<u8>>::empty() =~= views(lines@));
    lines
}

/// What is left when the subprocess's output ends: a last line that had no
/// line feed, forwarded as it stands, or nothing when no byte is left.
pub fn finish_lines(pending: Vec<u8>) -> (r: Option<Vec<u8>>)
    ensures
        r is None <==> pending@.len() == 0,
        r matches Some(line) ==> line@ == pending@,
{
    if pending.len() == 0 {
        None
    } else {
        Some(pending)
    }
}

} // verus!

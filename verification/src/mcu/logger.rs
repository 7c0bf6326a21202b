//! Log lines over USB: composing a line, cutting it into packets, and what a broken port ends.
use crate::text;
use crate::text::fit;
use vstd::prelude::*;
use vstd::slice::{slice_subrange, slice_to_vec};
use vstd::string::*;

verus! {

/// The most bytes that a packet takes.
pub const PACKET_LEN: usize = 64;

/// The most bytes that a log line takes.
pub const LINE_LEN: usize = 128;

/// How many lines wait to be sent; more are dropped.
pub const QUEUE_LEN: usize = 32;

/// What becomes of a line to which pieces are added: the first that does not fit is left out, and
/// with it all that come after.
pub open spec fn filled(line: Seq<char>, pieces: Seq<Seq<char>>) -> Seq<char>
    decreases pieces.len(),
{
    if pieces.len() == 0 || text::byte_len(line + pieces[0]) > LINE_LEN {
        line
    } else {
        filled(line + pieces[0], pieces.skip(1))
    }
}

/// The pieces of a record's line: its level in brackets, its text, and the line's end.
pub open spec fn pieces(level: Seq<char>, args: Seq<String>) -> Seq<Seq<char>> {
    seq!["["@, level, "] "@] + args.map_values(|s: String| s@) + seq!["\r\n"@]
}

/// Adds a piece to a line where it fits.
fn push_piece(line: &mut String, piece: &str) -> (r: bool)
    ensures
        r == (text::byte_len(old(line)@ + piece@) <= LINE_LEN),
        final(line)@ == (if r {
            old(line)@ + piece@
        } else {
            old(line)@
        }),
{
    let longer = line.clone().concat(piece);
    match fit::<128>(longer.as_str()) {
        Some(longer) => {
            *line = longer;
            true
        },
        None => false,
    }
}

pub struct Logger;

impl Logger {
    /// Every level is logged.
    pub fn enabled(&self) -> (r: bool)
        ensures
            r,
    {
        true
    }

    /// Composes the line of a record from its level and the pieces of its text.
    pub fn compose(&self, level: &str, args: &Vec<String>) -> (r: String)
        ensures
            r@ == filled(Seq::empty(), pieces(level@, args@)),
    {
        let mut line = String::new();
        let ghost all = pieces(level@, args@);
        proof {
            reveal_with_fuel(filled, 4);
            assert(all.skip(1).skip(1) =~= all.skip(2));
            assert(all.skip(2).skip(1) =~= all.skip(3));
            assert(all.skip(1)[0] == level@);
            assert(all.skip(2)[0] == "] "@);
        }
        if !push_piece(&mut line, "[") || !push_piece(&mut line, level) || !push_piece(
            &mut line,
            "] ",
        ) {
            return line;
        }
        let mut i: usize = 0;
        while i < args.len()
            invariant
                i <= args@.len(),
                all == pieces(level@, args@),
                filled(Seq::empty(), all) == filled(line@, all.skip(3 + i)),
            decreases args.len() - i,
        {
            assert(all.skip(3 + i)[0] == args@[i as int]@);
            assert(all.skip(3 + i).skip(1) =~= all.skip(4 + i));
            if !push_piece(&mut line, args[i].as_str()) {
                return line;
            }
            i += 1;
        }
        proof {
            let last = all.skip(3 + i);
            assert(last =~= seq!["\r\n"@]);
            assert(last.skip(1) =~= seq![]);
            reveal_with_fuel(filled, 2);
        }
        let _ = push_piece(&mut line, "\r\n");
        line
    }
}

/// All pieces, one after the other.
pub open spec fn whole(pieces: Seq<Seq<char>>) -> Seq<char>
    decreases pieces.len(),
{
    if pieces.len() == 0 {
        seq![]
    } else {
        pieces[0] + whole(pieces.skip(1))
    }
}

/// A line never takes more bytes than it may, and one whose pieces all fit holds them all.
pub proof fn law_line_is_whole_where_it_fits(line: Seq<char>, pieces: Seq<Seq<char>>)
    requires
        text::byte_len(line) <= LINE_LEN,
    ensures
        text::byte_len(filled(line, pieces)) <= LINE_LEN,
        text::byte_len(line + whole(pieces)) <= LINE_LEN ==> filled(line, pieces) == line + whole(
            pieces,
        ),
    decreases pieces.len(),
{
    if pieces.len() == 0 {
        assert(line + whole(pieces) =~= line);
    } else {
        let longer = line + pieces[0];
        let rest = pieces.skip(1);
        assert(line + whole(pieces) =~= longer + whole(rest));
        text::lemma_byte_len_joins(longer, whole(rest));
        if text::byte_len(longer) <= LINE_LEN {
            law_line_is_whole_where_it_fits(longer, rest);
        }
    }
}

/// A message in stretches of `PACKET_LEN` bytes, the last one shorter where they do not come out
/// even.
pub open spec fn chunks(msg: Seq<u8>) -> Seq<Seq<u8>>
    decreases msg.len(),
{
    if msg.len() == 0 {
        seq![]
    } else if msg.len() <= PACKET_LEN {
        seq![msg]
    } else {
        seq![msg.take(PACKET_LEN as int)] + chunks(msg.skip(PACKET_LEN as int))
    }
}

/// The packets of a message. One that would end on a full packet gets an empty one behind it, so
/// that the host does not wait for more.
pub open spec fn packets(msg: Seq<u8>) -> Seq<Seq<u8>> {
    if msg.len() > 0 && msg.len() % (PACKET_LEN as nat) == 0 {
        chunks(msg).push(Seq::empty())
    } else {
        chunks(msg)
    }
}

/// All that packets hold, in order.
pub open spec fn joined(packets: Seq<Seq<u8>>) -> Seq<u8>
    decreases packets.len(),
{
    if packets.len() == 0 {
        seq![]
    } else {
        packets[0] + joined(packets.skip(1))
    }
}

proof fn lemma_joined_push(packets: Seq<Seq<u8>>, last: Seq<u8>)
    ensures
        joined(packets.push(last)) == joined(packets) + last,
    decreases packets.len(),
{
    let longer = packets.push(last);
    if packets.len() == 0 {
        assert(longer.skip(1) =~= seq![]);
        reveal_with_fuel(joined, 2);
        assert(joined(longer) =~= last);
        assert(joined(packets) + last =~= last);
    } else {
        lemma_joined_push(packets.skip(1), last);
        assert(longer.skip(1) =~= packets.skip(1).push(last));
        assert(joined(longer) =~= joined(packets) + last);
    }
}

/// The stretches of a message, put together, are the message. Each is full but the last, which is
/// full where the message comes out even.
pub proof fn law_chunks_carry_the_message(msg: Seq<u8>)
    ensures
        joined(chunks(msg)) == msg,
        chunks(msg).len() == 0 <==> msg.len() == 0,
        forall|i: int|
            0 <= i < chunks(msg).len() - 1 ==> (#[trigger] chunks(msg)[i]).len() == PACKET_LEN,
        chunks(msg).len() > 0 ==> 0 < chunks(msg).last().len() <= PACKET_LEN,
        chunks(msg).len() > 0 ==> (chunks(msg).last().len() == PACKET_LEN <==> msg.len() % (
        PACKET_LEN as nat) == 0),
    decreases msg.len(),
{
    let c = chunks(msg);
    if msg.len() > PACKET_LEN {
        let rest = msg.skip(PACKET_LEN as int);
        law_chunks_carry_the_message(rest);
        assert(c.skip(1) =~= chunks(rest));
        assert(joined(c) =~= msg);
        assert forall|i: int| 0 <= i < c.len() - 1 implies (#[trigger] c[i]).len()
            == PACKET_LEN by {
            if i > 0 {
                assert(c[i] == chunks(rest)[i - 1]);
            }
        }
    } else if msg.len() > 0 {
        assert(c.skip(1) =~= seq![]);
        reveal_with_fuel(joined, 2);
        assert(joined(c) =~= msg);
    }
}

/// Nothing is lost or added on the way: the packets of a message, put together, are the message.
/// Each is full but the last, which is not, so the host knows where the message ends; an empty
/// message has no packet.
pub proof fn law_packets_carry_the_message(msg: Seq<u8>)
    ensures
        joined(packets(msg)) == msg,
        packets(msg).len() == 0 <==> msg.len() == 0,
        forall|i: int|
            0 <= i < packets(msg).len() - 1 ==> (#[trigger] packets(msg)[i]).len() == PACKET_LEN,
        packets(msg).len() > 0 ==> packets(msg).last().len() < PACKET_LEN,
{
    law_chunks_carry_the_message(msg);
    lemma_joined_push(chunks(msg), Seq::empty());
    let p = packets(msg);
    assert(joined(p) =~= msg);
    assert forall|i: int| 0 <= i < p.len() - 1 implies (#[trigger] p[i]).len() == PACKET_LEN by {
        if i < chunks(msg).len() {
            assert(p[i] == chunks(msg)[i]);
        }
    }
}

/// What a list of packets holds, packet by packet.
pub open spec fn contents(list: Seq<Vec<u8>>) -> Seq<Seq<u8>> {
    list.map_values(|p: Vec<u8>| p@)
}

/// Cuts a message into stretches of `PACKET_LEN` bytes.
pub fn cut(msg: &[u8]) -> (r: Vec<Vec<u8>>)
    ensures
        contents(r@) == chunks(msg@),
{
    let mut list: Vec<Vec<u8>> = Vec::new();
    let mut at: usize = 0;
    assert(msg@.skip(0) =~= msg@);
    assert(contents(list@) =~= seq![]);
    while at < msg.len()
        invariant
            at <= msg.len(),
            contents(list@) + chunks(msg@.skip(at as int)) == chunks(msg@),
        decreases msg.len() - at,
    {
        let end = if msg.len() - at > PACKET_LEN {
            at + PACKET_LEN
        } else {
            msg.len()
        };
        let chunk = slice_to_vec(slice_subrange(msg, at, end));
        let ghost rest = msg@.skip(at as int);
        let ghost before = contents(list@);
        list.push(chunk);
        proof {
            assert(contents(list@) =~= before.push(chunk@));
            if rest.len() > PACKET_LEN {
                assert(chunk@ =~= rest.take(PACKET_LEN as int));
                assert(rest.skip(PACKET_LEN as int) =~= msg@.skip(end as int));
            } else {
                assert(chunk@ =~= rest);
                assert(chunks(msg@.skip(end as int)) =~= seq![]);
            }
            assert(contents(list@) + chunks(msg@.skip(end as int)) =~= before + chunks(rest));
        }
        at = end;
    }
    assert(contents(list@) + chunks(msg@.skip(at as int)) =~= contents(list@));
    list
}

/// Cuts a message into packets.
pub fn packetize(msg: &[u8]) -> (r: Vec<Vec<u8>>)
    ensures
        contents(r@) == packets(msg@),
{
    let mut list = cut(msg);
    if msg.len() > 0 && msg.len() % PACKET_LEN == 0 {
        let ghost before = list@;
        let end: Vec<u8> = Vec::new();
        list.push(end);
        assert(end@ =~= Seq::<u8>::empty());
        assert(contents(list@) =~= contents(before).push(end@));
    }
    list
}

#[derive(Clone, Copy, Debug, PartialEq, Eq, Structural)]
pub enum Error {
    SetLoggerError,
}

impl Error {
    pub open spec fn text(self) -> Seq<char> {
        match self {
            Error::SetLoggerError => "failed to set logger"@,
        }
    }

    pub fn message(&self) -> (r: &'static str)
        ensures
            r@ == self.text(),
    {
        match self {
            Error::SetLoggerError => "failed to set logger",
        }
    }
}

/// The packets of the line that is being sent.
pub struct Sending {
    queue: Vec<Vec<u8>>,
    next: usize,
}

impl Sending {
    pub closed spec fn wf(&self) -> bool {
        self.next <= self.queue@.len()
    }

    /// The packets that are still to be sent.
    pub closed spec fn left(&self) -> Seq<Seq<u8>> {
        contents(self.queue@).skip(self.next as int)
    }

    /// Starts on these packets.
    pub fn new(list: Vec<Vec<u8>>) -> (r: Sending)
        ensures
            r.wf(),
            r.left() == contents(list@),
    {
        let r = Sending { queue: list, next: 0 };
        assert(r.left() =~= contents(list@));
        r
    }

    /// The packet to write next.
    pub fn next_packet(&self) -> (r: Option<&[u8]>)
        requires
            self.wf(),
        ensures
            match r {
                Some(p) => self.left().len() > 0 && p@ == self.left()[0],
                None => self.left().len() == 0,
            },
    {
        if self.next < self.queue.len() {
            assert(self.left()[0] == self.queue@[self.next as int]@);
            Some(self.queue[self.next].as_slice())
        } else {
            None
        }
    }

    /// The packet was written; or it could not be, and then the rest of the line is dropped.
    pub fn on_written(&mut self, ok: bool)
        requires
            old(self).wf(),
            old(self).left().len() > 0,
        ensures
            final(self).wf(),
            final(self).left() == (if ok {
                old(self).left().skip(1)
            } else {
                Seq::empty()
            }),
            ok ==> final(self).left().len() == old(self).left().len() - 1,
            !ok ==> final(self).left().len() == 0,
    {
        assert(self.next < self.queue.len());
        if ok {
            self.next = self.next + 1;
            assert(self.left() =~= old(self).left().skip(1));
        } else {
            self.next = self.queue.len();
            assert(self.left() =~= Seq::empty());
        }
    }
}

/// The task that sends log lines: whether the port is open, and the line that it is sending.
pub struct LoggerRunner {
    connected: bool,
    sending: Sending,
}

impl LoggerRunner {
    pub closed spec fn wf(&self) -> bool {
        self.sending.wf() && (!self.connected ==> self.sending.left().len() == 0)
    }

    pub closed spec fn is_connected(&self) -> bool {
        self.connected
    }

    /// The packets that are still to be sent.
    pub closed spec fn left(&self) -> Seq<Seq<u8>> {
        self.sending.left()
    }

    /// The port was opened.
    pub fn on_connection(&mut self)
        requires
            old(self).wf(),
        ensures
            final(self).wf(),
            final(self).is_connected(),
            final(self).left() == old(self).left(),
    {
        self.connected = true;
    }

    /// Whether the port is open, as far as is known.
    pub fn connected(&self) -> (r: bool)
        ensures
            r == self.is_connected(),
    {
        self.connected
    }

    /// A line is to be sent. What is left of another one would be dropped, so it comes when all is
    /// sent.
    pub fn on_message(&mut self, msg: &[u8])
        requires
            old(self).wf(),
            old(self).is_connected(),
            old(self).left().len() == 0,
        ensures
            final(self).wf(),
            final(self).is_connected(),
            final(self).left() == packets(msg@),
    {
        self.sending = Sending::new(packetize(msg));
    }

    /// The packet to write next.
    pub fn next_packet(&self) -> (r: Option<&[u8]>)
        requires
            self.wf(),
        ensures
            match r {
                Some(p) => self.left().len() > 0 && p@ == self.left()[0],
                None => self.left().len() == 0,
            },
    {
        self.sending.next_packet()
    }

    /// The packet was written, or could not be. A port that does not take a packet is gone: what
    /// is left of the line is dropped, and further lines wait for the next connection. That the
    /// empty packet behind a line failed does not matter.
    pub fn on_written(&mut self, ok: bool)
        requires
            old(self).wf(),
            old(self).is_connected(),
            old(self).left().len() > 0,
        ensures
            final(self).wf(),
            final(self).is_connected() == (ok || old(self).left()[0].len() == 0),
            final(self).left() == (if final(self).is_connected() {
                old(self).left().skip(1)
            } else {
                Seq::empty()
            }),
            ok ==> final(self).is_connected() && seq![old(self).left()[0]] + final(self).left()
                == old(self).left(),
            !ok && old(self).left()[0].len() > 0 ==> !final(self).is_connected()
                && final(self).left().len() == 0,
    {
        let empty = match self.sending.next_packet() {
            Some(packet) => packet.len() == 0,
            None => false,
        };
        self.connected = ok || empty;
        self.sending.on_written(ok || empty);
        assert(ok ==> seq![old(self).left()[0]] + self.left() =~= old(self).left());
    }
}

/// The task, once the logger is installed; `installed` says whether it could be.
pub fn init(installed: bool) -> (r: Result<LoggerRunner, Error>)
    ensures
        r is Ok <==> installed,
        r matches Ok(runner) ==> runner.wf() && !runner.is_connected() && runner.left().len() == 0,
        r matches Err(e) ==> e == Error::SetLoggerError,
{
    if installed {
        let none: Vec<Vec<u8>> = Vec::new();
        Ok(LoggerRunner { connected: false, sending: Sending::new(none) })
    } else {
        Err(Error::SetLoggerError)
    }
}

/// A line takes the pieces in order for as long as they fit in 128 bytes, and stops at the first
/// that does not: it holds the first `kept` of them whole, and one more would be too long.
pub proof fn law_line_stops_at_the_first_that_does_not_fit(
    line: Seq<char>,
    pieces: Seq<Seq<char>>,
) -> (kept: nat)
    ensures
        kept <= pieces.len(),
        filled(line, pieces) == line + whole(pieces.take(kept as int)),
        kept < pieces.len() ==> text::byte_len(filled(line, pieces) + pieces[kept as int]) > 128,
        forall|k: int|
            1 <= k <= kept ==> text::byte_len(line + whole(#[trigger] pieces.take(k))) <= 128,
    decreases pieces.len(),
{
    if pieces.len() == 0 || text::byte_len(line + pieces[0]) > 128 {
        assert(pieces.take(0) =~= seq![]);
        assert(line + whole(pieces.take(0)) =~= line);
        0
    } else {
        let longer = line + pieces[0];
        let rest = pieces.skip(1);
        let n = law_line_stops_at_the_first_that_does_not_fit(longer, rest);
        let kept = n + 1;
        assert(pieces.take(kept as int).skip(1) =~= rest.take(n as int));
        assert(whole(pieces.take(kept as int)) == pieces[0] + whole(rest.take(n as int)));
        assert(line + whole(pieces.take(kept as int)) =~= longer + whole(rest.take(n as int)));
        assert forall|k: int| 1 <= k <= kept implies text::byte_len(
            line + whole(#[trigger] pieces.take(k)),
        ) <= 128 by {
            assert(pieces.take(k).skip(1) =~= rest.take(k - 1));
            assert(line + whole(pieces.take(k)) =~= longer + whole(rest.take(k - 1)));
            if k == 1 {
                assert(rest.take(0) =~= seq![]);
                assert(longer + whole(rest.take(0)) =~= longer);
            }
        }
        kept
    }
}

proof fn lemma_whole_joins(a: Seq<Seq<char>>, b: Seq<Seq<char>>)
    ensures
        whole(a + b) == whole(a) + whole(b),
    decreases a.len(),
{
    if a.len() == 0 {
        assert(a + b =~= b);
        assert(whole(a) + whole(b) =~= whole(b));
    } else {
        lemma_whole_joins(a.skip(1), b);
        assert((a + b).skip(1) =~= a.skip(1) + b);
        assert(whole(a + b) =~= whole(a) + whole(b));
    }
}

/// What a record's line says: the level in brackets, a space, the text piece by piece, and the end
/// of the line.
pub proof fn law_record_reads(level: Seq<char>, args: Seq<String>)
    ensures
        whole(pieces(level, args)) == seq!['['] + level + seq![']', ' '] + whole(
            args.map_values(|s: String| s@),
        ) + seq!['\r', '\n'],
{
    reveal_strlit("[");
    reveal_strlit("] ");
    reveal_strlit("\r\n");
    assert("["@ =~= seq!['[']);
    assert("] "@ =~= seq![']', ' ']);
    assert("\r\n"@ =~= seq!['\r', '\n']);
    let head = seq!["["@, level, "] "@];
    let text = args.map_values(|s: String| s@);
    let end = seq!["\r\n"@];
    lemma_whole_joins(head + text, end);
    lemma_whole_joins(head, text);
    reveal_with_fuel(whole, 4);
    assert(head.skip(1) =~= seq![level, "] "@]);
    assert(head.skip(1).skip(1) =~= seq!["] "@]);
    assert(head.skip(1).skip(1).skip(1) =~= seq![]);
    assert(end.skip(1) =~= seq![]);
    assert(whole(head) =~= seq!['['] + level + seq![']', ' ']);
    assert(whole(end) =~= seq!['\r', '\n']);
}

/// Which bytes each packet carries: packet `i` carries those from `64 * i` on, 64 of them or what
/// is left, and there is always one that is not full, so that the host sees the end; an empty
/// message has none.
pub proof fn law_packets_are_64_bytes(msg: Seq<u8>, i: int)
    requires
        msg.len() > 0,
        0 <= i <= msg.len() / 64,
    ensures
        packets(msg).len() == msg.len() / 64 + 1,
        packets(msg)[i] == msg.subrange(64 * i, if 64 * i + 64 <= msg.len() {
            64 * i + 64
        } else {
            msg.len() as int
        }),
        packets(Seq::empty()) == Seq::<Seq<u8>>::empty(),
{
    lemma_chunk_is(msg, i);
    if i == chunks(msg).len() {
        assert(msg.subrange(64 * i, msg.len() as int) =~= Seq::<u8>::empty());
    }
}

/// Which bytes each stretch carries: stretch `i` carries those from `64 * i` on, 64 of them or what
/// is left, and there are no more stretches than it takes.
pub proof fn law_chunks_are_64_bytes(msg: Seq<u8>, i: int)
    requires
        0 <= i,
        64 * i < msg.len(),
    ensures
        chunks(msg).len() == (msg.len() + 63) / 64,
        chunks(msg)[i] == msg.subrange(64 * i, if 64 * i + 64 <= msg.len() {
            64 * i + 64
        } else {
            msg.len() as int
        }),
{
    lemma_chunk_is(msg, i);
}

proof fn lemma_chunk_is(msg: Seq<u8>, i: int)
    ensures
        chunks(msg).len() == (msg.len() + 63) / 64,
        0 <= i && 64 * i < msg.len() ==> chunks(msg)[i] == msg.subrange(
            64 * i,
            if 64 * i + 64 <= msg.len() {
                64 * i + 64
            } else {
                msg.len() as int
            },
        ),
    decreases msg.len(),
{
    if msg.len() > 64 {
        let rest = msg.skip(64);
        lemma_chunk_is(rest, i - 1);
        if 0 < i && 64 * i < msg.len() {
            let end = if 64 * i + 64 <= msg.len() {
                64 * i + 64
            } else {
                msg.len() as int
            };
            assert(rest.subrange(64 * (i - 1), end - 64) =~= msg.subrange(64 * i, end));
        } else if i == 0 {
            assert(msg.take(64) =~= msg.subrange(0, 64));
        }
    } else if msg.len() > 0 {
        assert(msg.subrange(0, msg.len() as int) =~= msg);
    }
}

} // verus!

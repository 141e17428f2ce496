//! The host's side of the interface: the stream configuration as a host
//! states it, the errors that a host is told, and the device listing read
//! back from a driver's buffer.

use vstd::prelude::*;
use crate::abi::{oa_buffer_layout, oa_sample_format, oa_stream_config};
use crate::listing::{delivered, joined_bytes, terminated_bytes, LINE_FEED};

verus! {

/// A stream configuration as a host states it. Samples are always 32-bit
/// floating point.
#[derive(Clone, Copy, Debug, PartialEq, Eq, Structural)]
pub struct StreamConfig {
    pub sample_rate: u32,
    pub buffer_frames: u32,
    pub in_channels: u16,
    pub out_channels: u16,
    pub interleaved: bool,
}

impl StreamConfig {
    /// The host's view of a configuration that crossed the interface.
    pub open spec fn spec_from_abi(cfg: oa_stream_config) -> StreamConfig {
        StreamConfig {
            sample_rate: cfg.sample_rate,
            buffer_frames: cfg.buffer_frames,
            in_channels: cfg.in_channels,
            out_channels: cfg.out_channels,
            interleaved: cfg.layout.is_interleaved(),
        }
    }

    /// The configuration that crosses the interface for this one, with the
    /// layout that the host chose when it loaded the driver.
    pub open spec fn spec_to_abi(self, interleaved: bool) -> oa_stream_config {
        oa_stream_config {
            sample_rate: self.sample_rate,
            buffer_frames: self.buffer_frames,
            in_channels: self.in_channels,
            out_channels: self.out_channels,
            format: oa_sample_format::OA_SAMPLE_F32,
            layout: if interleaved {
                oa_buffer_layout::OA_BUF_INTERLEAVED
            } else {
                oa_buffer_layout::OA_BUF_NONINTERLEAVED
            },
        }
    }

    #[verifier::when_used_as_spec(spec_from_abi)]
    pub fn from_abi(cfg: oa_stream_config) -> (r: StreamConfig)
        ensures
            r == Self::spec_from_abi(cfg),
    {
        StreamConfig {
            sample_rate: cfg.sample_rate,
            buffer_frames: cfg.buffer_frames,
            in_channels: cfg.in_channels,
            out_channels: cfg.out_channels,
            interleaved: cfg.layout.is_interleaved(),
        }
    }

    #[verifier::when_used_as_spec(spec_to_abi)]
    pub fn to_abi(self, interleaved: bool) -> (r: oa_stream_config)
        ensures
            r == self.spec_to_abi(interleaved),
    {
        oa_stream_config {
            sample_rate: self.sample_rate,
            buffer_frames: self.buffer_frames,
            in_channels: self.in_channels,
            out_channels: self.out_channels,
            format: oa_sample_format::OA_SAMPLE_F32,
            layout: if interleaved {
                oa_buffer_layout::OA_BUF_INTERLEAVED
            } else {
                oa_buffer_layout::OA_BUF_NONINTERLEAVED
            },
        }
    }
}

/// A host's configuration survives the interface: sent with its own layout
/// and read back, it is what it was. And a configuration of 32-bit floating
/// point samples that a driver sends survives the host.
pub proof fn lemma_config_round_trip(c: StreamConfig, cfg: oa_stream_config)
    ensures
        StreamConfig::spec_from_abi(c.spec_to_abi(c.interleaved)) == c,
        cfg.format == oa_sample_format::OA_SAMPLE_F32 ==> StreamConfig::spec_from_abi(
            cfg,
        ).spec_to_abi(cfg.layout.is_interleaved()) == cfg,
{
}

/// The calls that a host makes of a driver.
#[derive(Clone, Copy, Debug, PartialEq, Eq, Structural)]
pub enum Operation {
    Create,
    QueryDevices,
    OpenDevice,
    GetDefaultConfig,
    Start,
}

/// A call that a driver answered with an error code.
#[derive(Clone, Copy, Debug, PartialEq, Eq, Structural)]
pub struct HostError {
    pub op: Operation,
    pub rc: i32,
}

/// The result of a call, from its result code: an error if the code is
/// negative.
pub fn check(op: Operation, rc: i32) -> (r: Result<(), HostError>)
    ensures
        r == (if rc < 0 {
            Err(HostError { op, rc })
        } else {
            Ok(())
        }),
{
    if rc < 0 {
        Err(HostError { op, rc })
    } else {
        Ok(())
    }
}

/// The result of creating a driver: an error if the code is negative or no
/// driver came back.
pub fn check_created(rc: i32, driver_given: bool) -> (r: Result<(), HostError>)
    ensures
        r == (if rc < 0 || !driver_given {
            Err(HostError { op: Operation::Create, rc })
        } else {
            Ok(())
        }),
{
    if rc < 0 || !driver_given {
        Err(HostError { op: Operation::Create, rc })
    } else {
        Ok(())
    }
}

/// The character of a decimal digit.
pub open spec fn digit(d: int) -> char {
    if d == 0 {
        '0'
    } else if d == 1 {
        '1'
    } else if d == 2 {
        '2'
    } else if d == 3 {
        '3'
    } else if d == 4 {
        '4'
    } else if d == 5 {
        '5'
    } else if d == 6 {
        '6'
    } else if d == 7 {
        '7'
    } else if d == 8 {
        '8'
    } else {
        '9'
    }
}

/// The decimal digits of a number, without leading zeros.
pub open spec fn digits(n: nat) -> Seq<char>
    decreases n,
{
    if n < 10 {
        seq![digit(n as int)]
    } else {
        digits(n / 10).push(digit((n % 10) as int))
    }
}

/// A number in decimal, with a minus sign if it is negative.
pub open spec fn decimal(v: int) -> Seq<char> {
    if v < 0 {
        seq!['-'] + digits((-v) as nat)
    } else {
        digits(v as nat)
    }
}

fn digit_char(d: u64) -> (r: char)
    requires
        d < 10,
    ensures
        r == digit(d as int),
{
    if d == 0 {
        '0'
    } else if d == 1 {
        '1'
    } else if d == 2 {
        '2'
    } else if d == 3 {
        '3'
    } else if d == 4 {
        '4'
    } else if d == 5 {
        '5'
    } else if d == 6 {
        '6'
    } else if d == 7 {
        '7'
    } else if d == 8 {
        '8'
    } else {
        '9'
    }
}

/// Appends the decimal digits of a number.
fn push_digits(out: &mut Vec<char>, n: u64)
    ensures
        final(out)@ == old(out)@ + digits(n as nat),
    decreases n,
{
    if n < 10 {
        out.push(digit_char(n));
        assert(out@ =~= old(out)@ + digits(n as nat));
    } else {
        push_digits(out, n / 10);
        out.push(digit_char(n % 10));
        assert(out@ =~= old(out)@ + digits(n as nat));
    }
}

impl Operation {
    /// The name of the call.
    pub open spec fn spec_name(self) -> Seq<char> {
        match self {
            Operation::Create => "openasio_driver_create"@,
            Operation::QueryDevices => "query_devices"@,
            Operation::OpenDevice => "open_device"@,
            Operation::GetDefaultConfig => "get_default_config"@,
            Operation::Start => "start"@,
        }
    }

    /// The name of the call.
    pub fn name(self) -> (r: &'static str)
        ensures
            r@ == self.spec_name(),
    {
        match self {
            Operation::Create => "openasio_driver_create",
            Operation::QueryDevices => "query_devices",
            Operation::OpenDevice => "open_device",
            Operation::GetDefaultConfig => "get_default_config",
            Operation::Start => "start",
        }
    }
}

impl HostError {
    /// What the host is told: the name of the call, then ` rc=` and the
    /// result code in decimal.
    pub open spec fn spec_message(self) -> Seq<char> {
        self.op.spec_name() + " rc="@ + decimal(self.rc as int)
    }

    /// What the host is told.
    pub fn message(&self) -> (r: String)
        ensures
            r@ == self.spec_message(),
    {
        let mut number: Vec<char> = Vec::new();
        if self.rc < 0 {
            number.push('-');
            push_digits(&mut number, (-(self.rc as i64)) as u64);
        } else {
            push_digits(&mut number, self.rc as u64);
        }
        assert(number@ =~= decimal(self.rc as int));
        let text = crate::text::text_of(&number);
        self.op.name().to_owned().concat(" rc=").concat(text.as_str())
    }
}

/// The bytes of a buffer up to its first zero byte, or all of them if it
/// has none.
pub open spec fn until_nul(buf: Seq<u8>) -> Seq<u8>
    decreases buf.len(),
{
    if buf.len() == 0 || buf[0] == 0 {
        Seq::empty()
    } else {
        seq![buf[0]] + until_nul(buf.drop_first())
    }
}

/// How many bytes stand before the first line feed of a text; its length
/// if it has none.
pub open spec fn line_len(s: Seq<u8>) -> nat
    decreases s.len(),
{
    if s.len() == 0 || s[0] == LINE_FEED {
        0
    } else {
        1 + line_len(s.drop_first())
    }
}

/// A line without the carriage return that ended it, if one did.
pub open spec fn without_cr(line: Seq<u8>) -> Seq<u8> {
    if line.len() > 0 && line.last() == 13 {
        line.drop_last()
    } else {
        line
    }
}

/// The lines of a text. A line ends at a line feed, or at a carriage return
/// and a line feed; neither belongs to the line. What follows the last line
/// feed is a line as it stands, unless it is empty.
pub open spec fn lines(s: Seq<u8>) -> Seq<Seq<u8>>
    decreases s.len(),
{
    if s.len() == 0 {
        Seq::empty()
    } else if line_len(s) >= s.len() {
        seq![s]
    } else {
        seq![without_cr(s.take(line_len(s) as int))] + lines(s.skip(line_len(s) as int + 1))
    }
}

/// The first `k` bytes of a text are its first line if none of them is a
/// line feed and the text ends there or goes on with a line feed.
pub proof fn lemma_line_len(s: Seq<u8>, k: int)
    requires
        0 <= k <= s.len(),
        forall|j: int| 0 <= j < k ==> s[j] != LINE_FEED,
        k == s.len() || s[k] == LINE_FEED,
    ensures
        line_len(s) == k,
    decreases k,
{
    if k > 0 {
        lemma_line_len(s.drop_first(), k - 1);
    }
}

/// The start of a buffer is its text if it holds no zero byte and the
/// buffer ends there or goes on with a zero byte.
pub proof fn lemma_until_nul(buf: Seq<u8>, k: int)
    requires
        0 <= k <= buf.len(),
        forall|j: int| 0 <= j < k ==> buf[j] != 0,
        k == buf.len() || buf[k] == 0,
    ensures
        until_nul(buf) == buf.take(k),
    decreases k,
{
    if k > 0 {
        lemma_until_nul(buf.drop_first(), k - 1);
        assert(buf.take(k) =~= seq![buf[0]] + buf.drop_first().take(k - 1));
    } else {
        assert(buf.take(0) =~= Seq::<u8>::empty());
    }
}

/// A line that survives a listing unchanged: it holds no zero byte and no
/// line feed, and does not end in a carriage return.
pub open spec fn plain(line: Seq<u8>) -> bool {
    &&& forall|i: int| 0 <= i < line.len() ==> line[i] != 0 && line[i] != LINE_FEED
    &&& line.len() > 0 ==> line.last() != 13
}

/// A text that goes on after a line feed has the bytes before it as its
/// first line, and as further lines the lines of what follows.
pub proof fn lemma_lines_first(first: Seq<u8>, rest: Seq<u8>)
    requires
        forall|i: int| 0 <= i < first.len() ==> first[i] != LINE_FEED,
    ensures
        lines(first + seq![LINE_FEED] + rest) == seq![without_cr(first)] + lines(rest),
{
    let s = first + seq![LINE_FEED] + rest;
    lemma_line_len(s, first.len() as int);
    assert(s.take(first.len() as int) =~= first);
    assert(s.skip(first.len() as int + 1) =~= rest);
}

/// A text without a line feed is one line, unless it is empty.
pub proof fn lemma_lines_single(line: Seq<u8>)
    requires
        forall|i: int| 0 <= i < line.len() ==> line[i] != LINE_FEED,
        line.len() > 0,
    ensures
        lines(line) == seq![line],
{
    lemma_line_len(line, line.len() as int);
}

/// Joined lines start with the first line, a line feed, and the rest
/// joined.
pub proof fn lemma_joined_front(ls: Seq<Seq<u8>>)
    requires
        ls.len() >= 2,
    ensures
        joined_bytes(ls) == ls[0] + seq![LINE_FEED] + joined_bytes(ls.drop_first()),
    decreases ls.len(),
{
    if ls.len() == 2 {
        assert(ls.drop_last().len() == 1 && ls.drop_first().len() == 1);
        assert(joined_bytes(ls.drop_last()) == ls[0]);
        assert(joined_bytes(ls.drop_first()) == ls[1]);
    } else {
        lemma_joined_front(ls.drop_last());
        assert(ls.drop_last().drop_first() =~= ls.drop_first().drop_last());
        assert(joined_bytes(ls) =~= ls[0] + seq![LINE_FEED] + joined_bytes(ls.drop_first()));
    }
}

/// Terminated lines start with the first line, a line feed, and the rest
/// terminated.
pub proof fn lemma_terminated_front(ls: Seq<Seq<u8>>)
    requires
        ls.len() >= 1,
    ensures
        terminated_bytes(ls) == ls[0] + seq![LINE_FEED] + terminated_bytes(ls.drop_first()),
    decreases ls.len(),
{
    if ls.len() == 1 {
        assert(terminated_bytes(ls.drop_last()) =~= Seq::<u8>::empty());
        assert(terminated_bytes(ls.drop_first()) =~= Seq::<u8>::empty());
        assert(terminated_bytes(ls) =~= ls[0] + seq![LINE_FEED] + terminated_bytes(ls.drop_first()));
    } else {
        lemma_terminated_front(ls.drop_last());
        assert(ls.drop_last().drop_first() =~= ls.drop_first().drop_last());
        assert(terminated_bytes(ls) =~= ls[0] + seq![LINE_FEED] + terminated_bytes(
            ls.drop_first(),
        ));
    }
}

/// The lines of joined lines are the lines that were joined, if each is
/// plain and the last is not empty.
pub proof fn lemma_lines_of_joined(ls: Seq<Seq<u8>>)
    requires
        forall|i: int| 0 <= i < ls.len() ==> plain(#[trigger] ls[i]),
        ls.len() > 0 ==> ls.last().len() > 0,
    ensures
        lines(joined_bytes(ls)) == ls,
    decreases ls.len(),
{
    if ls.len() == 0 {
        assert(lines(joined_bytes(ls)) =~= ls);
    } else if ls.len() == 1 {
        assert(plain(ls[0]));
        lemma_lines_single(ls[0]);
        assert(seq![ls[0]] =~= ls);
    } else {
        let tail = ls.drop_first();
        assert(plain(ls[0]));
        assert forall|i: int| 0 <= i < tail.len() implies plain(#[trigger] tail[i]) by {
            assert(plain(ls[i + 1]));
        }
        lemma_joined_front(ls);
        lemma_lines_first(ls[0], joined_bytes(tail));
        lemma_lines_of_joined(tail);
        assert(seq![ls[0]] + tail =~= ls);
    }
}

/// The lines of terminated lines are the lines that were terminated, if
/// each is plain.
pub proof fn lemma_lines_of_terminated(ls: Seq<Seq<u8>>)
    requires
        forall|i: int| 0 <= i < ls.len() ==> plain(#[trigger] ls[i]),
    ensures
        lines(terminated_bytes(ls)) == ls,
    decreases ls.len(),
{
    if ls.len() == 0 {
        assert(lines(terminated_bytes(ls)) =~= ls);
    } else {
        let tail = ls.drop_first();
        assert(plain(ls[0]));
        assert forall|i: int| 0 <= i < tail.len() implies plain(#[trigger] tail[i]) by {
            assert(plain(ls[i + 1]));
        }
        lemma_terminated_front(ls);
        lemma_lines_first(ls[0], terminated_bytes(tail));
        lemma_lines_of_terminated(tail);
        assert(seq![ls[0]] + tail =~= ls);
    }
}

/// Plain lines, joined or terminated, hold no zero byte.
pub proof fn lemma_listing_has_no_nul(ls: Seq<Seq<u8>>)
    requires
        forall|i: int| 0 <= i < ls.len() ==> plain(#[trigger] ls[i]),
    ensures
        forall|k: int| 0 <= k < joined_bytes(ls).len() ==> joined_bytes(ls)[k] != 0,
        forall|k: int| 0 <= k < terminated_bytes(ls).len() ==> terminated_bytes(ls)[k] != 0,
    decreases ls.len(),
{
    if ls.len() > 0 {
        let init = ls.drop_last();
        let last = ls.last();
        assert(plain(last));
        assert forall|i: int| 0 <= i < init.len() implies plain(#[trigger] init[i]) by {
            assert(plain(ls[i]));
        }
        lemma_listing_has_no_nul(init);
        let j = joined_bytes(ls);
        let t = terminated_bytes(ls);
        assert forall|k: int| 0 <= k < j.len() implies j[k] != 0 by {
            if ls.len() > 1 {
                let head = joined_bytes(init);
                assert(j == head + seq![LINE_FEED] + last);
                if k < head.len() {
                    assert(j[k] == head[k]);
                } else if k > head.len() {
                    assert(j[k] == last[k - head.len() - 1]);
                }
            }
        }
        assert forall|k: int| 0 <= k < t.len() implies t[k] != 0 by {
            let head = terminated_bytes(init);
            assert(t == head + last + seq![LINE_FEED]);
            if k < head.len() {
                assert(t[k] == head[k]);
            } else if k < head.len() + last.len() {
                assert(t[k] == last[k - head.len()]);
            }
        }
    }
}

/// A listing survives the buffer: what a driver delivers of plain names to
/// a buffer that holds them all, a host reads back as the same names.
/// Joined names must not end with an empty name, which would leave no
/// trace.
pub proof fn lemma_listing_round_trip(ls: Seq<Seq<u8>>, len: nat)
    requires
        forall|i: int| 0 <= i < ls.len() ==> plain(#[trigger] ls[i]),
    ensures
        len > terminated_bytes(ls).len() ==> lines(
            until_nul(delivered(terminated_bytes(ls), len)),
        ) == ls,
        len > joined_bytes(ls).len() && (ls.len() > 0 ==> ls.last().len() > 0) ==> lines(
            until_nul(delivered(joined_bytes(ls), len)),
        ) == ls,
{
    lemma_listing_has_no_nul(ls);
    if len > terminated_bytes(ls).len() {
        let list = terminated_bytes(ls);
        lemma_until_nul(list.push(0), list.len() as int);
        assert(list.push(0).take(list.len() as int) =~= list);
        lemma_lines_of_terminated(ls);
    }
    if len > joined_bytes(ls).len() && (ls.len() > 0 ==> ls.last().len() > 0) {
        let list = joined_bytes(ls);
        lemma_until_nul(list.push(0), list.len() as int);
        assert(list.push(0).take(list.len() as int) =~= list);
        lemma_lines_of_joined(ls);
    }
}

/// The views of a list of byte strings.
pub open spec fn byte_lines(v: Seq<Vec<u8>>) -> Seq<Seq<u8>> {
    Seq::new(v.len(), |i: int| v[i]@)
}

/// The bytes of `buf` from `from` up to `to`.
fn copy_range(buf: &[u8], from: usize, to: usize) -> (r: Vec<u8>)
    requires
        from <= to <= buf@.len(),
    ensures
        r@ == buf@.subrange(from as int, to as int),
{
    let mut r: Vec<u8> = Vec::new();
    let mut i: usize = from;
    while i < to
        invariant
            from <= i <= to <= buf@.len(),
            r@ == buf@.subrange(from as int, i as int),
        decreases to - i,
    {
        r.push(buf[i]);
        assert(buf@.subrange(from as int, i as int).push(buf@[i as int]) =~= buf@.subrange(
            from as int,
            i + 1,
        ));
        i += 1;
    }
    r
}

/// Reads a device listing back from the buffer that a driver filled: the
/// lines of the text that ends at the first zero byte.
pub fn parse_device_list(buf: &[u8]) -> (r: Vec<Vec<u8>>)
    ensures
        byte_lines(r@) == lines(until_nul(buf@)),
{
    let mut end: usize = 0;
    while end < buf.len() && buf[end] != 0
        invariant
            end <= buf@.len(),
            forall|j: int| 0 <= j < end ==> buf@[j] != 0,
        decreases buf@.len() - end,
    {
        end += 1;
    }
    let ghost text = buf@.take(end as int);
    proof {
        lemma_until_nul(buf@, end as int);
    }
    let mut out: Vec<Vec<u8>> = Vec::new();
    let mut start: usize = 0;
    let mut i: usize = 0;
    proof {
        assert(text.skip(0) =~= text);
        assert(byte_lines(out@) + lines(text.skip(0)) =~= lines(text));
    }
    while i < end
        invariant
            start <= i <= end <= buf@.len(),
            text == buf@.take(end as int),
            forall|j: int| start <= j < i ==> buf@[j] != LINE_FEED,
            byte_lines(out@) + lines(text.skip(start as int)) == lines(text),
        decreases end - i,
    {
        if buf[i] == LINE_FEED {
            let stop = if i > start && buf[i - 1] == 13 {
                i - 1
            } else {
                i
            };
            let line = copy_range(buf, start, stop);
            proof {
                let rest = text.skip(start as int);
                lemma_line_len(rest, i - start);
                assert(rest.take(i - start) =~= buf@.subrange(start as int, i as int));
                assert(line@ =~= without_cr(rest.take(i - start)));
                assert(rest.skip(i - start + 1) =~= text.skip(i + 1));
                assert(lines(rest) == seq![line@] + lines(text.skip(i + 1)));
                assert(byte_lines(out@.push(line)) =~= byte_lines(out@) + seq![line@]);
                assert(byte_lines(out@.push(line)) + lines(text.skip(i + 1)) =~= byte_lines(out@)
                    + lines(rest));
            }
            out.push(line);
            start = i + 1;
        }
        i += 1;
    }
    if start < end {
        let line = copy_range(buf, start, end);
        proof {
            let rest = text.skip(start as int);
            lemma_line_len(rest, end - start);
            assert(line@ =~= rest);
            assert(lines(rest) =~= seq![rest]);
            assert(byte_lines(out@.push(line)) =~= byte_lines(out@) + seq![line@]);
        }
        out.push(line);
    } else {
        proof {
            assert(text.skip(start as int).len() == 0);
            assert(byte_lines(out@) + Seq::<Seq<u8>>::empty() =~= byte_lines(out@));
        }
    }
    out
}

} // verus!

//! Device listings as they cross the interface: names separated by line
//! feeds, cut to the caller's buffer and closed by a zero byte.

use vstd::prelude::*;
use vstd::utf8::encode_utf8;

verus! {

/// The byte that separates two names.
pub const LINE_FEED: u8 = 10;

/// What is written to a buffer of `len` bytes for a listing: nothing if the
/// buffer is empty; else as much of the listing as leaves room for the zero
/// byte that closes it, and that byte.
pub open spec fn delivered(list: Seq<u8>, len: nat) -> Seq<u8> {
    if len == 0 {
        Seq::empty()
    } else if list.len() <= len - 1 {
        list.push(0)
    } else {
        list.take(len - 1).push(0)
    }
}

/// The bytes to write to a buffer of `len` bytes for a listing.
pub fn deliver_list(list: &[u8], len: usize) -> (r: Vec<u8>)
    ensures
        r@ == delivered(list@, len as nat),
{
    let mut r: Vec<u8> = Vec::new();
    if len == 0 {
        return r;
    }
    let room = len - 1;
    let n = if list.len() <= room {
        list.len()
    } else {
        room
    };
    let mut i: usize = 0;
    while i < n
        invariant
            i <= n <= list@.len(),
            r@ == list@.take(i as int),
        decreases n - i,
    {
        r.push(list[i]);
        assert(list@.take(i as int).push(list@[i as int]) =~= list@.take(i + 1));
        i += 1;
    }
    r.push(0);
    proof {
        if list@.len() <= len - 1 {
            assert(list@.take(n as int) =~= list@);
        }
    }
    r
}

/// What is delivered fits the buffer, ends with the zero byte if the
/// buffer has room for one, and is otherwise the start of the listing.
pub proof fn lemma_delivered_fits(list: Seq<u8>, len: nat)
    ensures
        delivered(list, len).len() <= len,
        len > 0 ==> delivered(list, len).len() > 0 && delivered(list, len).last() == 0,
        len > 0 ==> delivered(list, len).drop_last() == list.take(
            delivered(list, len).len() - 1,
        ),
        len > list.len() ==> delivered(list, len) == list.push(0),
{
    if len > 0 {
        if list.len() <= len - 1 {
            assert(list.push(0).drop_last() =~= list);
            assert(list.take(list.len() as int) =~= list);
        } else {
            assert(list.take(len - 1).push(0).drop_last() =~= list.take(len - 1));
        }
    }
}

/// The lines, with a line feed between one line and the next.
pub open spec fn joined_bytes(lines: Seq<Seq<u8>>) -> Seq<u8>
    decreases lines.len(),
{
    if lines.len() == 0 {
        Seq::empty()
    } else if lines.len() == 1 {
        lines[0]
    } else {
        joined_bytes(lines.drop_last()) + seq![LINE_FEED] + lines.last()
    }
}

/// The lines, with a line feed after each line.
pub open spec fn terminated_bytes(lines: Seq<Seq<u8>>) -> Seq<u8>
    decreases lines.len(),
{
    if lines.len() == 0 {
        Seq::empty()
    } else {
        terminated_bytes(lines.drop_last()) + lines.last() + seq![LINE_FEED]
    }
}

/// The bytes of each name.
pub open spec fn encoded(names: Seq<Seq<char>>) -> Seq<Seq<u8>> {
    Seq::new(names.len(), |i: int| encode_utf8(names[i]))
}

/// The bytes of the names, with a line feed between one name and the next.
pub open spec fn joined(names: Seq<Seq<char>>) -> Seq<u8> {
    joined_bytes(encoded(names))
}

/// The bytes of the names, with a line feed after each name.
pub open spec fn terminated(names: Seq<Seq<char>>) -> Seq<u8> {
    terminated_bytes(encoded(names))
}

/// The texts that a list of names holds.
pub open spec fn texts(v: Seq<String>) -> Seq<Seq<char>> {
    Seq::new(v.len(), |i: int| v[i]@)
}

/// Appends the bytes of a name.
fn push_name(out: &mut Vec<u8>, name: &str)
    ensures
        final(out)@ == old(out)@ + encode_utf8(name@),
{
    let bytes = name.as_bytes();
    let mut k: usize = 0;
    while k < bytes.len()
        invariant
            k <= bytes@.len(),
            bytes@ == encode_utf8(name@),
            out@ == old(out)@ + bytes@.take(k as int),
        decreases bytes@.len() - k,
    {
        out.push(bytes[k]);
        assert(bytes@.take(k as int).push(bytes@[k as int]) =~= bytes@.take(k + 1));
        k += 1;
    }
    assert(bytes@.take(bytes@.len() as int) =~= bytes@);
}

/// The listing of the names, with a line feed between one name and the
/// next.
pub fn join_names(names: &Vec<String>) -> (r: Vec<u8>)
    ensures
        r@ == joined(texts(names@)),
{
    let mut r: Vec<u8> = Vec::new();
    let mut i: usize = 0;
    while i < names.len()
        invariant
            i <= names@.len(),
            r@ == joined_bytes(encoded(texts(names@)).take(i as int)),
        decreases names@.len() - i,
    {
        let ghost all = encoded(texts(names@));
        proof {
            assert(all.take(i + 1).drop_last() =~= all.take(i as int));
            assert(all.take(i + 1).last() == encode_utf8(names@[i as int]@));
        }
        if i > 0 {
            r.push(LINE_FEED);
        }
        push_name(&mut r, names[i].as_str());
        proof {
            if i == 0 {
                assert(all.take(1)[0] == encode_utf8(names@[0]@));
                assert(r@ =~= encode_utf8(names@[0]@));
            } else {
                assert(r@ =~= joined_bytes(all.take(i as int)) + seq![LINE_FEED] + encode_utf8(
                    names@[i as int]@,
                ));
            }
        }
        i += 1;
    }
    assert(encoded(texts(names@)).take(names@.len() as int) =~= encoded(texts(names@)));
    r
}

/// The listing of the names, with a line feed after each name.
pub fn terminate_names(names: &Vec<String>) -> (r: Vec<u8>)
    ensures
        r@ == terminated(texts(names@)),
{
    let mut r: Vec<u8> = Vec::new();
    let mut i: usize = 0;
    while i < names.len()
        invariant
            i <= names@.len(),
            r@ == terminated_bytes(encoded(texts(names@)).take(i as int)),
        decreases names@.len() - i,
    {
        let ghost all = encoded(texts(names@));
        proof {
            assert(all.take(i + 1).drop_last() =~= all.take(i as int));
            assert(all.take(i + 1).last() == encode_utf8(names@[i as int]@));
        }
        push_name(&mut r, names[i].as_str());
        r.push(LINE_FEED);
        proof {
            assert(r@ =~= terminated_bytes(all.take(i as int)) + encode_utf8(names@[i as int]@)
                + seq![LINE_FEED]);
        }
        i += 1;
    }
    assert(encoded(texts(names@)).take(names@.len() as int) =~= encoded(texts(names@)));
    r
}

} // verus!

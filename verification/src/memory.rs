//! Byte streams held in memory, read and written at a position as a file
//! or a device of fixed size is.

use vstd::prelude::*;

verus! {

/// How many of `want` bytes a stream of `len` bytes has at offset `at`.
pub open spec fn available(len: nat, at: nat, want: nat) -> nat {
    if at >= len {
        0
    } else if want <= len - at {
        want
    } else {
        (len - at) as nat
    }
}

/// Reads from `stream` at `cursor`, which lies inside the stream or at its
/// end, into the start of `storage`: as many bytes as the storage has room
/// for and the stream still holds. The rest of the storage keeps what it
/// held.
pub fn read_at(stream: &[u8], cursor: usize, storage: &mut Vec<u8>) -> (count: usize)
    requires
        cursor <= stream@.len(),
    ensures
        count == available(stream@.len(), cursor as nat, old(storage)@.len()),
        final(storage)@ == stream@.subrange(cursor as int, cursor + count) + old(storage)@.skip(
            count as int,
        ),
        final(storage)@.len() == old(storage)@.len(),
{
    let len = stream.len();
    let room = storage.len();
    let count = if cursor >= len {
        0
    } else if room <= len - cursor {
        room
    } else {
        len - cursor
    };
    let mut i: usize = 0;
    while i < count
        invariant
            i <= count,
            cursor + count <= len,
            len == stream@.len(),
            count <= room,
            storage@.len() == room,
            old(storage)@.len() == room,
            storage@ == stream@.subrange(cursor as int, cursor + i) + old(storage)@.skip(i as int),
        decreases count - i,
    {
        storage[i] = stream[cursor + i];
        i += 1;
        assert(storage@ =~= stream@.subrange(cursor as int, cursor + i) + old(storage)@.skip(
            i as int,
        ));
    }
    assert(storage@ =~= stream@.subrange(cursor as int, cursor + count) + old(storage)@.skip(
        count as int,
    ));
    count
}

/// Writes `bytes` into `stream` at `position`, which lies inside the stream
/// or at its end, over what is there: as many of them as fit before the
/// stream's end. The stream keeps its length.
pub fn write_at(stream: &mut Vec<u8>, position: usize, bytes: &[u8]) -> (count: usize)
    requires
        position <= old(stream)@.len(),
    ensures
        count == available(old(stream)@.len(), position as nat, bytes@.len()),
        final(stream)@ == old(stream)@.take(position as int) + bytes@.take(count as int) + old(
            stream,
        )@.skip(position + count),
        final(stream)@.len() == old(stream)@.len(),
{
    let len = stream.len();
    let count = if position >= len {
        0
    } else if bytes.len() <= len - position {
        bytes.len()
    } else {
        len - position
    };
    let mut i: usize = 0;
    while i < count
        invariant
            i <= count,
            position + count <= len,
            count <= bytes@.len(),
            stream@.len() == len,
            old(stream)@.len() == len,
            stream@ == old(stream)@.take(position as int) + bytes@.take(i as int) + old(
                stream,
            )@.skip(position + i),
        decreases count - i,
    {
        stream[position + i] = bytes[i];
        i += 1;
        assert(stream@ =~= old(stream)@.take(position as int) + bytes@.take(i as int) + old(
            stream,
        )@.skip(position + i));
    }
    assert(stream@ =~= old(stream)@.take(position as int) + bytes@.take(count as int) + old(
        stream,
    )@.skip(position + count));
    count
}

} // verus!

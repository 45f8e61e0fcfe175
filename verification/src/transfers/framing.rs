//! The form of a log on disk: records one after the other, each a length of
//! four bytes, least significant first, and then as many bytes as it says.

use vstd::prelude::*;

verus! {

/// The four bytes of a length, least significant first.
pub open spec fn length_bytes(length: nat) -> Seq<u8> {
    seq![
        (length % 256) as u8,
        (length / 256 % 256) as u8,
        (length / 65536 % 256) as u8,
        (length / 16777216 % 256) as u8,
    ]
}

/// The length that four bytes say.
pub open spec fn length_of(bytes: Seq<u8>) -> nat {
    (bytes[0] + 256 * bytes[1] + 65536 * bytes[2] + 16777216 * bytes[3]) as nat
}

/// One record as it stands on disk.
pub open spec fn framed(record: Seq<u8>) -> Seq<u8> {
    length_bytes(record.len()) + record
}

/// Records as they stand on disk, one after the other.
pub open spec fn framed_all(records: Seq<Seq<u8>>) -> Seq<u8>
    decreases records.len(),
{
    if records.len() == 0 {
        Seq::empty()
    } else {
        framed(records.first()) + framed_all(records.drop_first())
    }
}

/// The records that bytes hold; none where a record is cut short.
pub open spec fn parsed(bytes: Seq<u8>) -> Option<Seq<Seq<u8>>>
    decreases bytes.len(),
{
    if bytes.len() == 0 {
        Some(Seq::empty())
    } else if bytes.len() < 4 {
        None
    } else {
        let length = length_of(bytes.take(4)) as int;
        if bytes.len() - 4 < length {
            None
        } else {
            match parsed(bytes.skip(4 + length)) {
                Some(rest) => Some(seq![bytes.subrange(4, 4 + length)] + rest),
                None => None,
            }
        }
    }
}

/// The views of records.
pub open spec fn views(records: Seq<Vec<u8>>) -> Seq<Seq<u8>> {
    records.map_values(|record: Vec<u8>| record@)
}

/// Four bytes say the length they were made of.
pub proof fn length_is_read_back(length: nat)
    requires
        length <= u32::MAX,
    ensures
        length_of(length_bytes(length)) == length,
{
    let b0 = length % 256;
    let b1 = length / 256 % 256;
    let b2 = length / 65536 % 256;
    let b3 = length / 16777216 % 256;
    assert(b0 + 256 * b1 + 65536 * b2 + 16777216 * b3 == length) by (nonlinear_arith)
        requires
            length <= 0xffff_ffff,
            b0 == length % 256,
            b1 == length / 256 % 256,
            b2 == length / 65536 % 256,
            b3 == length / 16777216 % 256,
    ;
}

/// What was written is what is read: records of a length that four bytes
/// can say, framed one after the other, parse to themselves.
pub proof fn framed_records_are_read_back(records: Seq<Seq<u8>>)
    requires
        forall|i: int| 0 <= i < records.len() ==> (#[trigger] records[i]).len() <= u32::MAX,
    ensures
        parsed(framed_all(records)) == Some(records),
    decreases records.len(),
{
    if records.len() > 0 {
        let first = records.first();
        let rest = records.drop_first();
        assert forall|i: int| 0 <= i < rest.len() implies (#[trigger] rest[i]).len()
            <= u32::MAX by {
            assert(rest[i] == records[i + 1]);
        }
        framed_records_are_read_back(rest);
        let bytes = framed_all(records);
        length_is_read_back(first.len());
        assert(bytes.take(4) =~= length_bytes(first.len()));
        assert(bytes.subrange(4, 4 + first.len() as int) =~= first);
        assert(bytes.skip(4 + first.len() as int) =~= framed_all(rest));
        assert(seq![first] + rest =~= records);
    }
}

/// The record with its length before it; none where the record is longer
/// than four bytes can say.
pub fn frame(record: &[u8]) -> (bytes: Option<Vec<u8>>)
    ensures
        match bytes {
            Some(bytes) => record@.len() <= u32::MAX && bytes@ == framed(record@),
            None => record@.len() > u32::MAX,
        },
{
    let length: usize = record.len();
    if length as u64 > 0xffff_ffff {
        return None;
    }
    let mut bytes: Vec<u8> = Vec::new();
    bytes.push((length % 256) as u8);
    bytes.push((length / 256 % 256) as u8);
    bytes.push((length / 65536 % 256) as u8);
    bytes.push((length / 16777216 % 256) as u8);
    let mut i: usize = 0;
    while i < length
        invariant
            i <= length,
            length == record@.len(),
            bytes@ == length_bytes(length as nat) + record@.take(i as int),
        decreases length - i,
    {
        bytes.push(record[i]);
        assert(record@.take(i + 1) =~= record@.take(i as int).push(record@[i as int]));
        assert(bytes@ =~= length_bytes(length as nat) + record@.take(i + 1));
        i += 1;
    }
    assert(record@.take(length as int) =~= record@);
    Some(bytes)
}

/// The records that the bytes of a log hold, in order; none where a record
/// is cut short.
pub fn records(bytes: &[u8]) -> (found: Option<Vec<Vec<u8>>>)
    ensures
        match found {
            Some(records) => parsed(bytes@) == Some(views(records@)),
            None => parsed(bytes@) is None,
        },
{
    let mut found: Vec<Vec<u8>> = Vec::new();
    let mut at: usize = 0;
    proof {
        assert(bytes@.skip(0) =~= bytes@);
        match parsed(bytes@) {
            Some(rest) => {
                assert(views(found@) + rest =~= rest);
            },
            None => {},
        }
    }
    while at < bytes.len()
        invariant
            at <= bytes@.len(),
            parsed(bytes@) == match parsed(bytes@.skip(at as int)) {
                Some(rest) => Some(views(found@) + rest),
                None => None::<Seq<Seq<u8>>>,
            },
        decreases bytes@.len() - at,
    {
        let ghost here = bytes@.skip(at as int);
        if bytes.len() - at < 4 {
            return None;
        }
        let length: u64 = bytes[at] as u64 + 256 * (bytes[at + 1] as u64) + 65536 * (bytes[at
            + 2] as u64) + 16777216 * (bytes[at + 3] as u64);
        proof {
            assert(here.take(4)[0] == bytes@[at as int]);
            assert(here.take(4)[1] == bytes@[at + 1]);
            assert(here.take(4)[2] == bytes@[at + 2]);
            assert(here.take(4)[3] == bytes@[at + 3]);
            assert(length == length_of(here.take(4)));
        }
        if ((bytes.len() - at - 4) as u64) < length {
            return None;
        }
        let size: usize = length as usize;
        let start: usize = at + 4;
        let mut record: Vec<u8> = Vec::new();
        let mut i: usize = 0;
        while i < size
            invariant
                i <= size,
                start + size <= bytes@.len(),
                bytes@.len() <= usize::MAX,
                record@ == bytes@.subrange(start as int, start + i),
            decreases size - i,
        {
            record.push(bytes[start + i]);
            assert(record@ =~= bytes@.subrange(start as int, start + i + 1));
            i += 1;
        }
        proof {
            assert(record@ =~= here.subrange(4, 4 + length));
            assert(here.skip(4 + length) =~= bytes@.skip(at + 4 + size));
            let before = views(found@);
            let after = views(found@.push(record));
            assert(after =~= before.push(record@));
            match parsed(bytes@.skip(at + 4 + size)) {
                Some(rest) => {
                    assert(before + (seq![record@] + rest) =~= after + rest);
                },
                None => {},
            }
        }
        found.push(record);
        at = at + 4 + size;
    }
    proof {
        assert(bytes@.skip(at as int).len() == 0);
        assert(views(found@) + Seq::<Seq<u8>>::empty() =~= views(found@));
    }
    Some(found)
}

} // verus!

//! Typed-array records: an 8-byte element count followed by the elements'
//! bytes, laid out contiguously.

use vstd::prelude::*;
use crate::bytes::{u64_le, le_u64, lemma_u64_round_trip, push_u64, read_u64};
use crate::element::Element;

verus! {

/// The bytes of the elements of `s`, one after another.
pub open spec fn elems_bytes<T: Element>(s: Seq<T>) -> Seq<u8>
    decreases s.len(),
{
    if s.len() == 0 {
        Seq::empty()
    } else {
        elems_bytes(s.drop_last()) + s.last().to_bytes()
    }
}

/// The record of `s`: its element count, then its elements.
#[verifier::opaque]
pub open spec fn record_bytes<T: Element>(s: Seq<T>) -> Seq<u8> {
    u64_le(s.len() as u64) + elems_bytes(s)
}

/// The `n` elements laid out from byte `start` of `b`.
pub open spec fn parse_elems<T: Element>(b: Seq<u8>, start: int, n: nat) -> Seq<T> {
    Seq::new(
        n,
        |i: int|
            T::from_bytes(b.subrange(start + i * T::size(), start + i * T::size() + T::size())),
    )
}

/// The record that starts at byte `pos` of `b`, with the position just past it;
/// `None` where `b` ends before the record does.
pub open spec fn parse_record<T: Element>(b: Seq<u8>, pos: int) -> Option<(Seq<T>, int)> {
    if pos + 8 > b.len() {
        None
    } else {
        let n = le_u64(b.subrange(pos, pos + 8)) as nat;
        let end = pos + 8 + n * T::size();
        if end > b.len() {
            None
        } else {
            Some((parse_elems(b, pos + 8, n), end))
        }
    }
}

pub proof fn lemma_elems_len<T: Element>(s: Seq<T>)
    ensures
        elems_bytes(s).len() == s.len() * T::size(),
    decreases s.len(),
{
    let w = T::size() as int;
    let n = s.len() as int;
    if n == 0 {
        assert(n * w == 0);
    } else {
        lemma_elems_len(s.drop_last());
        T::lemma_bytes(s.last());
        assert((n - 1) * w + w == n * w) by (nonlinear_arith);
    }
}

pub proof fn lemma_elems_bytes<T: Element>(s: Seq<T>, i: int)
    requires
        0 <= i < s.len(),
    ensures
        i * T::size() + T::size() <= s.len() * T::size(),
        elems_bytes(s).subrange(i * T::size(), i * T::size() + T::size()) == s[i].to_bytes(),
    decreases s.len(),
{
    let w = T::size() as int;
    let n = s.len() as int;
    let prev = s.drop_last();
    T::lemma_bytes(s.last());
    lemma_elems_len(prev);
    lemma_elems_len(s);
    assert(i * w + w <= n * w) by (nonlinear_arith)
        requires
            0 <= i < n,
            0 <= w,
    ;
    if i == n - 1 {
        assert(i * w == (n - 1) * w);
        assert(elems_bytes(s).subrange(i * w, i * w + w) =~= s.last().to_bytes());
    } else {
        lemma_elems_bytes(prev, i);
        assert(i * w + w <= (n - 1) * w) by (nonlinear_arith)
            requires
                0 <= i < n - 1,
                0 <= w,
        ;
        assert(elems_bytes(s).subrange(i * w, i * w + w) =~= elems_bytes(prev).subrange(
            i * w,
            i * w + w,
        ));
    }
}

/// A record read back from where it was written gives the same elements.
pub proof fn lemma_parse_record_bytes<T: Element>(b: Seq<u8>, pos: int, s: Seq<T>)
    requires
        0 <= pos,
        s.len() <= u64::MAX,
        pos + record_bytes(s).len() <= b.len(),
        b.subrange(pos, pos + record_bytes(s).len()) == record_bytes(s),
    ensures
        record_bytes(s).len() == 8 + s.len() * T::size(),
        parse_record::<T>(b, pos) == Some((s, pos + record_bytes(s).len())),
{
    reveal(record_bytes);
    let w = T::size() as int;
    let r = record_bytes(s);
    lemma_u64_round_trip(s.len() as u64);
    lemma_elems_len(s);
    assert(b.subrange(pos, pos + 8) =~= r.subrange(0, 8));
    assert(r.subrange(0, 8) =~= u64_le(s.len() as u64));
    let e = elems_bytes(s);
    let got = parse_elems::<T>(b, pos + 8, s.len());
    assert(r.subrange(8, r.len() as int) =~= e);
    assert(b.subrange(pos + 8, pos + 8 + e.len()) =~= b.subrange(pos, pos + r.len()).subrange(
        8,
        r.len() as int,
    ));
    assert forall|i: int| 0 <= i < s.len() implies got[i] == s[i] by {
        lemma_elems_bytes(s, i);
        T::lemma_bytes(s[i]);
        assert(0 <= i * w) by (nonlinear_arith)
            requires
                0 <= i,
                0 <= w,
        ;
        assert(b.subrange(pos + 8, pos + 8 + e.len()).subrange(i * w, i * w + w) =~= b.subrange(
            pos + 8 + i * w,
            pos + 8 + i * w + w,
        ));
    }
    assert(got =~= s);
}

/// Cutting `b` leaves a record in place where the cut falls after it, and
/// leaves none where the cut falls inside it.
pub proof fn lemma_parse_record_prefix<T: Element>(b: Seq<u8>, pos: int, n: int)
    requires
        0 <= pos,
        0 <= n <= b.len(),
        parse_record::<T>(b, pos) is Some,
    ensures
        match parse_record::<T>(b, pos) {
            Some((_, end)) => if end <= n {
                parse_record::<T>(b.subrange(0, n), pos) == parse_record::<T>(b, pos)
            } else {
                parse_record::<T>(b.subrange(0, n), pos) is None
            },
            None => true,
        },
{
    let c = b.subrange(0, n);
    let w = T::size() as int;
    if pos + 8 <= n {
        assert(c.subrange(pos, pos + 8) =~= b.subrange(pos, pos + 8));
        let k = le_u64(b.subrange(pos, pos + 8)) as int;
        let end = pos + 8 + k * w;
        if end <= n {
            let pc = parse_elems::<T>(c, pos + 8, k as nat);
            let pb = parse_elems::<T>(b, pos + 8, k as nat);
            assert forall|i: int| 0 <= i < k implies pc[i] == pb[i] by {
                assert(0 <= i * w && i * w + w <= k * w) by (nonlinear_arith)
                    requires
                        0 <= i < k,
                        0 <= w,
                ;
                assert(c.subrange(pos + 8 + i * w, pos + 8 + i * w + w) =~= b.subrange(
                    pos + 8 + i * w,
                    pos + 8 + i * w + w,
                ));
            }
            assert(pc =~= pb);
        }
    }
}

/// Appends the record of `v`.
pub fn write_record<T: Element>(out: &mut Vec<u8>, v: &Vec<T>)
    ensures
        final(out)@ == old(out)@ + record_bytes(v@),
        v@.len() <= u64::MAX,
{
    reveal(record_bytes);
    push_u64(out, v.len() as u64);
    let ghost start = out@;
    let mut i: usize = 0;
    while i < v.len()
        invariant
            i <= v@.len(),
            out@ == start + elems_bytes(v@.subrange(0, i as int)),
        decreases v@.len() - i,
    {
        v[i].write_to(out);
        proof {
            let s = v@.subrange(0, i + 1);
            assert(s.drop_last() =~= v@.subrange(0, i as int));
        }
        i += 1;
    }
    assert(v@.subrange(0, v@.len() as int) =~= v@);
}

/// Reads the record that starts at byte `pos`, with the position just past it.
pub fn read_record<T: Element>(b: &[u8], pos: usize) -> (r: Option<(Vec<T>, usize)>)
    requires
        pos <= b@.len(),
    ensures
        match r {
            Some((v, end)) => parse_record::<T>(b@, pos as int) == Some((v@, end as int)),
            None => parse_record::<T>(b@, pos as int) is None,
        },
{
    let len = b.len();
    if len - pos < 8 {
        return None;
    }
    let n = read_u64(b, pos);
    let w = T::byte_size();
    let room = len - pos - 8;
    if n > (room / w) as u64 {
        proof {
            assert(n as int * w > room) by (nonlinear_arith)
                requires
                    n > room / w,
                    w > 0,
            ;
        }
        return None;
    }
    let n = n as usize;
    proof {
        assert(n as int * w <= room) by (nonlinear_arith)
            requires
                n <= room / w,
                w > 0,
        ;
    }
    let start = pos + 8;
    let mut v: Vec<T> = Vec::new();
    let mut i: usize = 0;
    while i < n
        invariant
            i <= n,
            start == pos + 8,
            start + n * w <= len,
            len == b@.len(),
            w == T::size(),
            v@ == parse_elems::<T>(b@, start as int, i as nat),
        decreases n - i,
    {
        proof {
            assert(i * w + w <= n * w) by (nonlinear_arith)
                requires
                    i < n,
            ;
        }
        let e = T::read_from(b, start + i * w);
        v.push(e);
        assert(v@ =~= parse_elems::<T>(b@, start as int, (i + 1) as nat));
        i += 1;
    }
    Some((v, start + n * w))
}

} // verus!
